//! Byte and character helpers shared by the extractors: ASCII case folding,
//! substring search, decimal numbers and string building.

use vstd::prelude::*;
use vstd::string::StringSliceAdditionalSpecFns;
use vstd::utf8::{encode_utf8, encode_utf8_decode_utf8};

verus! {

/// The ASCII lower-case form of a byte; bytes that are no upper-case ASCII
/// letter stay as they are.
pub open spec fn lower(b: u8) -> u8 {
    if 0x41 <= b && b <= 0x5a {
        (b + 0x20) as u8
    } else {
        b
    }
}

/// The ASCII lower-case form of a byte.
pub fn lower_byte(b: u8) -> (r: u8)
    ensures
        r == lower(b),
{
    if 0x41 <= b && b <= 0x5a {
        b + 0x20
    } else {
        b
    }
}

/// `needle` stands in `hay` at index `i`, letters compared without regard to
/// ASCII case.
pub open spec fn occurs_folded_at(hay: Seq<u8>, needle: Seq<u8>, i: int) -> bool {
    &&& 0 <= i
    &&& i + needle.len() <= hay.len()
    &&& forall|k: int| 0 <= k < needle.len() ==> lower(#[trigger] hay[i + k]) == lower(needle[k])
}

/// `needle` stands somewhere in `hay`, letters compared without regard to
/// ASCII case.
pub open spec fn contains_folded(hay: Seq<u8>, needle: Seq<u8>) -> bool {
    exists|i: int| occurs_folded_at(hay, needle, i)
}

/// Tests one position of a case-insensitive search.
pub fn matches_folded_at(hay: &[u8], needle: &[u8], i: usize) -> (r: bool)
    ensures
        r == occurs_folded_at(hay@, needle@, i as int),
{
    let total = hay.len();
    if needle.len() > total || i > total - needle.len() {
        return false;
    }
    let mut k: usize = 0;
    while k < needle.len()
        invariant
            k <= needle@.len(),
            total == hay@.len(),
            i + needle@.len() <= hay@.len(),
            forall|j: int| 0 <= j < k ==> lower(#[trigger] hay@[i + j]) == lower(needle@[j]),
        decreases needle@.len() - k,
    {
        if lower_byte(hay[i + k]) != lower_byte(needle[k]) {
            assert(lower(hay@[i + k]) != lower(needle@[k as int]));
            return false;
        }
        k += 1;
    }
    true
}

/// Case-insensitive substring test.
pub fn contains_ignore_case(hay: &[u8], needle: &[u8]) -> (r: bool)
    ensures
        r == contains_folded(hay@, needle@),
{
    if needle.len() > hay.len() {
        assert forall|i: int| !occurs_folded_at(hay@, needle@, i) by {}
        return false;
    }
    let last: usize = hay.len() - needle.len();
    if last == usize::MAX {
        // Only an empty needle leaves every place of the longest text to try.
        assert(occurs_folded_at(hay@, needle@, 0));
        return true;
    }
    let mut i: usize = 0;
    while i <= last
        invariant
            i <= last + 1,
            last + needle@.len() == hay@.len(),
            hay@.len() <= usize::MAX,
            forall|j: int| 0 <= j < i ==> !occurs_folded_at(hay@, needle@, j),
        decreases last + 1 - i,
    {
        if matches_folded_at(hay, needle, i) {
            return true;
        }
        i += 1;
    }
    assert forall|j: int| !occurs_folded_at(hay@, needle@, j) by {}
    false
}

/// `needle` stands in `hay` at index `i`, byte for byte.
pub open spec fn occurs_at(hay: Seq<u8>, needle: Seq<u8>, i: int) -> bool {
    &&& 0 <= i
    &&& i + needle.len() <= hay.len()
    &&& hay.subrange(i, i + needle.len()) == needle
}

/// Tests one position of an exact search.
pub fn matches_at(hay: &[u8], needle: &[u8], i: usize) -> (r: bool)
    ensures
        r == occurs_at(hay@, needle@, i as int),
{
    let total = hay.len();
    if needle.len() > total || i > total - needle.len() {
        return false;
    }
    let mut k: usize = 0;
    while k < needle.len()
        invariant
            k <= needle@.len(),
            total == hay@.len(),
            i + needle@.len() <= hay@.len(),
            forall|j: int| 0 <= j < k ==> hay@[i + j] == needle@[j],
        decreases needle@.len() - k,
    {
        if hay[i + k] != needle[k] {
            assert(hay@.subrange(i as int, i + needle@.len())[k as int] != needle@[k as int]);
            return false;
        }
        k += 1;
    }
    assert(hay@.subrange(i as int, i + needle@.len()) =~= needle@);
    true
}

/// Whether two byte strings are the same.
pub fn same_bytes(a: &[u8], b: &[u8]) -> (r: bool)
    ensures
        r == (a@ == b@),
{
    if a.len() != b.len() {
        return false;
    }
    let mut i: usize = 0;
    while i < a.len()
        invariant
            i <= a@.len(),
            a@.len() == b@.len(),
            forall|j: int| 0 <= j < i ==> a@[j] == b@[j],
        decreases a@.len() - i,
    {
        if a[i] != b[i] {
            return false;
        }
        i += 1;
    }
    assert(a@ =~= b@);
    true
}

/// Whether two texts are the same, character for character.
pub fn same_text(a: &str, b: &str) -> (r: bool)
    ensures
        r == (a@ == b@),
{
    let r = same_bytes(a.as_bytes(), b.as_bytes());
    proof {
        encode_utf8_decode_utf8(a@);
        encode_utf8_decode_utf8(b@);
    }
    r
}

/// An ASCII decimal digit.
pub open spec fn is_digit(b: u8) -> bool {
    0x30 <= b && b <= 0x39
}

/// Every byte of `s` is an ASCII decimal digit.
pub open spec fn all_digits(s: Seq<u8>) -> bool {
    forall|i: int| 0 <= i < s.len() ==> is_digit(#[trigger] s[i])
}

/// The number that a run of decimal digits writes, most significant first.
pub open spec fn decimal_value(digits: Seq<u8>) -> nat
    decreases digits.len(),
{
    if digits.len() == 0 {
        0
    } else {
        decimal_value(digits.drop_last()) * 10 + (digits.last() - 0x30) as nat
    }
}

/// The digits of a port text: the text itself, or what follows one leading
/// plus sign.
pub open spec fn port_digits(text: Seq<u8>) -> Seq<u8> {
    if text.len() > 0 && text[0] == 0x2b {
        text.drop_first()
    } else {
        text
    }
}

/// The port that a text writes: an optional plus sign, then at least one
/// decimal digit and nothing else, the number no larger than 65535.
pub open spec fn port_of_text(text: Seq<u8>) -> Option<u16> {
    let digits = port_digits(text);
    if digits.len() > 0 && all_digits(digits) && decimal_value(digits) <= 0xffff {
        Some(decimal_value(digits) as u16)
    } else {
        None
    }
}

/// The port that captured digits write; none where nothing was captured or
/// the digits write no port number.
pub open spec fn captured_port(capture: Option<Seq<char>>) -> Option<u16> {
    match capture {
        Some(t) => port_of_text(encode_utf8(t)),
        None => None,
    }
}

/// A longer run of digits writes a number at least as large as any prefix.
pub proof fn lemma_decimal_value_grows(digits: Seq<u8>, n: int)
    requires
        0 <= n <= digits.len(),
        all_digits(digits),
    ensures
        decimal_value(digits.subrange(0, n)) <= decimal_value(digits),
    decreases digits.len() - n,
{
    if n == digits.len() {
        assert(digits.subrange(0, n) =~= digits);
    } else {
        assert(digits.drop_last().subrange(0, n) =~= digits.subrange(0, n));
        assert(all_digits(digits.drop_last()));
        lemma_decimal_value_grows(digits.drop_last(), n);
    }
}

/// Reads a port number from its decimal text.
pub fn parse_port(text: &str) -> (r: Option<u16>)
    ensures
        r == port_of_text(text.spec_bytes()),
{
    let bytes = text.as_bytes();
    let start: usize = if bytes.len() > 0 && bytes[0] == 0x2b {
        1
    } else {
        0
    };
    let ghost digits = port_digits(bytes@);
    assert(digits == bytes@.subrange(start as int, bytes@.len() as int));
    if start == bytes.len() {
        return None;
    }
    let mut value: u32 = 0;
    let mut i: usize = start;
    while i < bytes.len()
        invariant
            start <= i <= bytes@.len(),
            bytes@ == text.spec_bytes(),
            digits == port_digits(bytes@),
            digits.len() > 0,
            digits == bytes@.subrange(start as int, bytes@.len() as int),
            all_digits(digits.subrange(0, i - start)),
            value == decimal_value(digits.subrange(0, i - start)),
            value <= 0xffff,
        decreases bytes@.len() - i,
    {
        let b = bytes[i];
        let ghost before = digits.subrange(0, i - start);
        let ghost after = digits.subrange(0, i - start + 1);
        proof {
            assert(after.drop_last() =~= before);
            assert(after.last() == b);
            assert(digits[i - start] == b);
        }
        if !(0x30 <= b && b <= 0x39) {
            assert(!is_digit(digits[i - start]));
            return None;
        }
        let next: u32 = value * 10 + (b - 0x30) as u32;
        assert(next == decimal_value(after));
        if next > 0xffff {
            proof {
                if all_digits(digits) {
                    lemma_decimal_value_grows(digits, i - start + 1);
                }
            }
            return None;
        }
        value = next;
        i += 1;
        assert(all_digits(after)) by {
            assert forall|j: int| 0 <= j < after.len() implies is_digit(#[trigger] after[j]) by {
                if j < before.len() {
                    assert(before[j] == after[j]);
                }
            }
        }
    }
    assert(digits.subrange(0, i - start) =~= digits);
    Some(value as u16)
}

/// Reads the port that captured digits write.
pub fn port_from_capture(capture: &Option<String>) -> (r: Option<u16>)
    ensures
        r == captured_port(
            match *capture {
                Some(t) => Some(t@),
                None => None,
            },
        ),
{
    match capture {
        Some(t) => parse_port(t.as_str()),
        None => None,
    }
}

/// A byte that goes on with a character of UTF-8 rather than beginning one.
pub open spec fn is_continuation(b: u8) -> bool {
    0x80 <= b && b < 0xc0
}

/// Where the character before the offset `pos` begins; the beginning of the
/// text where there is none.
pub open spec fn step_back(bytes: Seq<u8>, pos: int) -> int
    decreases pos,
{
    if pos <= 1 {
        0
    } else if pos - 1 >= bytes.len() || !is_continuation(bytes[pos - 1]) {
        pos - 1
    } else {
        step_back(bytes, pos - 1)
    }
}

/// The offset `n` characters before the offset `pos`; the beginning of the
/// text where it has fewer before `pos`.
pub open spec fn back_by(bytes: Seq<u8>, pos: int, n: nat) -> int
    decreases n,
{
    if n == 0 || pos <= 0 {
        pos
    } else {
        back_by(bytes, step_back(bytes, pos), (n - 1) as nat)
    }
}

/// Where the character after the one at the offset `pos` begins; the end of
/// the text where there is none.
pub open spec fn step_forth(bytes: Seq<u8>, pos: int) -> int
    decreases bytes.len() - pos,
{
    if pos + 1 >= bytes.len() {
        bytes.len() as int
    } else if !is_continuation(bytes[pos + 1]) {
        pos + 1
    } else {
        step_forth(bytes, pos + 1)
    }
}

/// The offset `n` characters after the offset `pos`; the end of the text
/// where it has fewer from `pos` on.
pub open spec fn forth_by(bytes: Seq<u8>, pos: int, n: nat) -> int
    decreases n,
{
    if n == 0 || pos >= bytes.len() {
        pos
    } else {
        forth_by(bytes, step_forth(bytes, pos), (n - 1) as nat)
    }
}

/// Steps back over `n` characters from the offset `pos`.
pub fn offset_back(bytes: &[u8], pos: usize, n: usize) -> (r: usize)
    ensures
        r == back_by(bytes@, pos as int, n as nat),
        r <= pos,
{
    let len = bytes.len();
    let mut at: usize = pos;
    let mut left: usize = n;
    while left > 0 && at > 0
        invariant
            len == bytes@.len(),
            at <= pos,
            back_by(bytes@, pos as int, n as nat) == back_by(bytes@, at as int, left as nat),
        decreases left,
    {
        let mut before: usize = at;
        while before > 1 && before - 1 < len && 0x80 <= bytes[before - 1] && bytes[before - 1]
            < 0xc0
            invariant
                len == bytes@.len(),
                1 <= before <= at,
                step_back(bytes@, at as int) == step_back(bytes@, before as int),
            decreases before,
        {
            before -= 1;
        }
        at = if before <= 1 {
            0
        } else {
            before - 1
        };
        left -= 1;
    }
    at
}

/// Steps forth over `n` characters from the offset `pos`.
pub fn offset_forth(bytes: &[u8], pos: usize, n: usize) -> (r: usize)
    ensures
        r == forth_by(bytes@, pos as int, n as nat),
        pos <= r,
        pos <= bytes@.len() ==> r <= bytes@.len(),
{
    let len = bytes.len();
    let mut at: usize = pos;
    let mut left: usize = n;
    while left > 0 && at < len
        invariant
            len == bytes@.len(),
            pos <= at,
            pos <= len ==> at <= len,
            forth_by(bytes@, pos as int, n as nat) == forth_by(bytes@, at as int, left as nat),
        decreases left,
    {
        let mut next: usize = at;
        while next + 1 < len && 0x80 <= bytes[next + 1] && bytes[next + 1] < 0xc0
            invariant
                len == bytes@.len(),
                at <= next < len,
                step_forth(bytes@, at as int) == step_forth(bytes@, next as int),
            decreases len - next,
        {
            next += 1;
        }
        at = if next + 1 >= len {
            len
        } else {
            next + 1
        };
        left -= 1;
    }
    at
}

/// The character that writes one decimal digit.
pub open spec fn digit_char(d: nat) -> char
    recommends
        d < 10,
{
    ((0x30 + d) as u8) as char
}

/// The decimal text of a number, without sign or leading zeros.
pub open spec fn decimal_text(n: nat) -> Seq<char>
    decreases n,
{
    if n < 10 {
        seq![digit_char(n)]
    } else {
        decimal_text(n / 10).push(digit_char(n % 10))
    }
}

/// `String::push` of the standard library: the character is appended to the
/// end of the string and nothing else changes.
#[verifier::external_body]
pub(crate) fn push_char(s: &mut String, c: char)
    ensures
        final(s)@ == old(s)@.push(c),
{
    s.push(c)
}

/// The characters of a text.
pub fn chars_of(text: &str) -> (r: Vec<char>)
    ensures
        r@ == text@,
{
    let mut out: Vec<char> = Vec::new();
    for c in it: text.chars()
        invariant
            out@ == it.seq().take(it.index() as int),
            it.seq() == text@,
    {
        out.push(c);
    }
    out
}

/// A character that counts as white space.
pub open spec fn is_space(c: char) -> bool {
    let u = c as u32;
    ||| 0x09 <= u <= 0x0d
    ||| u == 0x20
    ||| u == 0x85
    ||| u == 0xa0
    ||| u == 0x1680
    ||| 0x2000 <= u <= 0x200a
    ||| u == 0x2028
    ||| u == 0x2029
    ||| u == 0x202f
    ||| u == 0x205f
    ||| u == 0x3000
}

/// Whether a character counts as white space.
pub fn char_is_space(c: char) -> (r: bool)
    ensures
        r == is_space(c),
{
    let u: u32 = c as u32;
    (0x09 <= u && u <= 0x0d) || u == 0x20 || u == 0x85 || u == 0xa0 || u == 0x1680 || (0x2000 <= u
        && u <= 0x200a) || u == 0x2028 || u == 0x2029 || u == 0x202f || u == 0x205f || u
        == 0x3000
}

/// How many characters of white space a text begins with.
pub open spec fn leading_spaces(text: Seq<char>) -> int
    decreases text.len(),
{
    if text.len() == 0 || !is_space(text[0]) {
        0
    } else {
        1 + leading_spaces(text.drop_first())
    }
}

/// How many characters of white space a text ends with.
pub open spec fn trailing_spaces(text: Seq<char>) -> int
    decreases text.len(),
{
    if text.len() == 0 || !is_space(text.last()) {
        0
    } else {
        1 + trailing_spaces(text.drop_last())
    }
}

/// A text without the white space at its beginning and at its end.
pub open spec fn trimmed(text: Seq<char>) -> Seq<char> {
    let from = leading_spaces(text);
    if from == text.len() {
        Seq::empty()
    } else {
        text.subrange(from, text.len() - trailing_spaces(text))
    }
}

/// `leading_spaces` counts the white space up to the first other character.
pub proof fn lemma_leading_spaces(text: Seq<char>, n: int)
    requires
        0 <= n <= text.len(),
        forall|i: int| 0 <= i < n ==> is_space(#[trigger] text[i]),
        n < text.len() ==> !is_space(text[n]),
    ensures
        leading_spaces(text) == n,
    decreases text.len(),
{
    if n > 0 {
        assert(is_space(text[0]));
        let rest = text.drop_first();
        assert forall|i: int| 0 <= i < n - 1 implies is_space(#[trigger] rest[i]) by {
            assert(rest[i] == text[i + 1]);
        }
        if n < text.len() {
            assert(rest[n - 1] == text[n]);
        }
        lemma_leading_spaces(rest, n - 1);
    }
}

/// `trailing_spaces` counts the white space back to the last other
/// character.
pub proof fn lemma_trailing_spaces(text: Seq<char>, n: int)
    requires
        0 <= n <= text.len(),
        forall|i: int| text.len() - n <= i < text.len() ==> is_space(#[trigger] text[i]),
        n < text.len() ==> !is_space(text[text.len() - n - 1]),
    ensures
        trailing_spaces(text) == n,
    decreases text.len(),
{
    if n > 0 {
        assert(is_space(text[text.len() - 1]));
        let rest = text.drop_last();
        assert forall|i: int| rest.len() - (n - 1) <= i < rest.len() implies is_space(
            #[trigger] rest[i],
        ) by {
            assert(rest[i] == text[i]);
        }
        if n < text.len() {
            assert(rest[rest.len() - (n - 1) - 1] == text[text.len() - n - 1]);
        }
        lemma_trailing_spaces(rest, n - 1);
    }
}

/// Takes the white space off both ends of a text.
pub fn trim_text(text: &str) -> (r: String)
    ensures
        r@ == trimmed(text@),
{
    let chars = chars_of(text);
    let mut from: usize = 0;
    while from < chars.len() && char_is_space(chars[from])
        invariant
            from <= chars@.len(),
            forall|i: int| 0 <= i < from ==> is_space(#[trigger] chars@[i]),
        decreases chars@.len() - from,
    {
        from += 1;
    }
    proof {
        lemma_leading_spaces(chars@, from as int);
    }
    if from == chars.len() {
        return String::new();
    }
    let mut to: usize = chars.len();
    while to > from + 1 && char_is_space(chars[to - 1])
        invariant
            from < to <= chars@.len(),
            !is_space(chars@[from as int]),
            forall|i: int| to <= i < chars@.len() ==> is_space(#[trigger] chars@[i]),
        decreases to,
    {
        to -= 1;
    }
    proof {
        lemma_trailing_spaces(chars@, chars@.len() - to);
    }
    let mut out = String::new();
    let mut i: usize = from;
    while i < to
        invariant
            from <= i <= to <= chars@.len(),
            out@ == chars@.subrange(from as int, i as int),
        decreases to - i,
    {
        push_char(&mut out, chars[i]);
        i += 1;
        assert(out@ =~= chars@.subrange(from as int, i as int));
    }
    out
}

/// Builds a string from its characters.
pub fn string_of_chars(chars: &Vec<char>) -> (r: String)
    ensures
        r@ == chars@,
{
    let mut out = String::new();
    let mut i: usize = 0;
    while i < chars.len()
        invariant
            i <= chars@.len(),
            out@ == chars@.subrange(0, i as int),
        decreases chars@.len() - i,
    {
        push_char(&mut out, chars[i]);
        i += 1;
        assert(out@ =~= chars@.subrange(0, i as int));
    }
    assert(chars@.subrange(0, i as int) =~= chars@);
    out
}

/// The decimal text of a number is that of its tenth, then its last digit.
pub proof fn lemma_decimal_text_step(n: nat)
    ensures
        decimal_text(n) == if n >= 10 {
            decimal_text(n / 10) + seq![digit_char(n % 10)]
        } else {
            seq![digit_char(n % 10)]
        },
{
    if n >= 10 {
        assert(decimal_text(n / 10).push(digit_char(n % 10)) =~= decimal_text(n / 10)
            + seq![digit_char(n % 10)]);
    } else {
        assert(n % 10 == n);
    }
}

/// Writes a number in decimal.
pub fn format_decimal(n: u64) -> (r: String)
    ensures
        r@ == decimal_text(n as nat),
{
    let mut digits: Vec<char> = Vec::new();
    let mut rest: u64 = n;
    loop
        invariant_except_break
            decimal_text(n as nat) == decimal_text(rest as nat) + digits@,
        ensures
            decimal_text(n as nat) == digits@,
        decreases rest,
    {
        let d: u8 = (rest % 10) as u8;
        let c: char = (0x30 + d) as char;
        let ghost tail = digits@;
        assert(c == digit_char((rest % 10) as nat));
        digits.insert(0, c);
        proof {
            lemma_decimal_text_step(rest as nat);
            assert(digits@ =~= seq![c] + tail);
            if rest >= 10 {
                assert((decimal_text((rest / 10) as nat) + seq![c]) + tail =~= decimal_text(
                    (rest / 10) as nat,
                ) + digits@);
            } else {
                assert(seq![c] + tail =~= digits@);
            }
        }
        if rest < 10 {
            break;
        }
        rest = rest / 10;
    }
    string_of_chars(&digits)
}

} // verus!
