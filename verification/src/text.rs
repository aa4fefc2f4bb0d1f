//! Text: comparing, joining and writing numbers.

use vstd::prelude::*;
use vstd::string::StringSliceAdditionalSpecFns;

verus! {

/// The decimal digit of a number below ten.
pub open spec fn digit(d: nat) -> char {
    (48 + d) as char
}

/// A number in decimal notation, without leading zeros.
pub open spec fn decimal(n: nat) -> Seq<char>
    decreases n,
{
    if n < 10 {
        seq![digit(n)]
    } else {
        decimal(n / 10).push(digit(n % 10))
    }
}

fn digit_text(d: u128) -> (text: &'static str)
    requires
        d < 10,
    ensures
        text@ == seq![digit(d as nat)],
{
    proof {
        reveal_strlit("0");
        reveal_strlit("1");
        reveal_strlit("2");
        reveal_strlit("3");
        reveal_strlit("4");
        reveal_strlit("5");
        reveal_strlit("6");
        reveal_strlit("7");
        reveal_strlit("8");
        reveal_strlit("9");
    }
    let text = if d == 0 {
        "0"
    } else if d == 1 {
        "1"
    } else if d == 2 {
        "2"
    } else if d == 3 {
        "3"
    } else if d == 4 {
        "4"
    } else if d == 5 {
        "5"
    } else if d == 6 {
        "6"
    } else if d == 7 {
        "7"
    } else if d == 8 {
        "8"
    } else {
        "9"
    };
    assert(text@ =~= seq![digit(d as nat)]);
    text
}

/// `n` written in decimal.
pub fn wide_decimal_text(n: u128) -> (text: String)
    ensures
        text@ == decimal(n as nat),
    decreases n,
{
    if n < 10 {
        digit_text(n).to_owned()
    } else {
        let mut text = wide_decimal_text(n / 10);
        text.append(digit_text(n % 10));
        assert(text@ =~= decimal(n as nat));
        text
    }
}

/// `n` written in decimal.
pub fn decimal_text(n: u64) -> (text: String)
    ensures
        text@ == decimal(n as nat),
{
    wide_decimal_text(n as u128)
}

/// Whether two texts hold the same characters.
pub fn same_text(left: &str, right: &str) -> (same: bool)
    ensures
        same == (left@ == right@),
{
    let l = left.as_bytes();
    let r = right.as_bytes();
    proof {
        vstd::utf8::encode_utf8_decode_utf8(left@);
        vstd::utf8::encode_utf8_decode_utf8(right@);
    }
    if l.len() != r.len() {
        return false;
    }
    let mut i: usize = 0;
    while i < l.len()
        invariant
            i <= l.len(),
            l.len() == r.len(),
            l@ == left.spec_bytes(),
            r@ == right.spec_bytes(),
            forall|j: int| 0 <= j < i ==> l@[j] == r@[j],
        decreases l.len() - i,
    {
        if l[i] != r[i] {
            return false;
        }
        i = i + 1;
    }
    assert(l@ =~= r@);
    true
}

/// Where a text stands in a list of texts.
pub fn position_of(texts: &Vec<String>, wanted: &str) -> (at: Option<usize>)
    ensures
        at is Some <==> exists|i: int| 0 <= i < texts@.len() && texts@[i]@ == wanted@,
        at matches Some(i) ==> i < texts@.len() && texts@[i as int]@ == wanted@ && forall|j: int|
            0 <= j < i ==> texts@[j]@ != wanted@,
{
    let mut i: usize = 0;
    while i < texts.len()
        invariant
            i <= texts.len(),
            forall|j: int| 0 <= j < i ==> texts@[j]@ != wanted@,
        decreases texts.len() - i,
    {
        if same_text(texts[i].as_str(), wanted) {
            return Some(i);
        }
        i = i + 1;
    }
    None
}

/// The text of an optional text, for contracts.
pub open spec fn text_of(text: Option<String>) -> Option<Seq<char>> {
    match text {
        Some(text) => Some(text@),
        None => None,
    }
}

/// The texts of a list, for contracts.
pub open spec fn texts_of(texts: Seq<String>) -> Seq<Seq<char>> {
    texts.map_values(|text: String| text@)
}

/// A label and a detail, joined by a colon and a blank.
pub fn labelled(label: &str, detail: &str) -> (text: String)
    ensures
        text@ == label@ + ": "@ + detail@,
{
    let mut text = label.to_owned();
    text.append(": ");
    text.append(detail);
    text
}

/// What is left of a text after a prefix, if it starts with it.
pub fn strip_prefix<'a>(text: &'a str, prefix: &str) -> (rest: Option<&'a str>)
    ensures
        rest is Some <==> prefix@.is_prefix_of(text@),
        rest matches Some(rest) ==> text@ == prefix@ + rest@ && rest@ == text@.skip(
            prefix@.len() as int,
        ),
{
    let len: usize = text.unicode_len();
    let n: usize = prefix.unicode_len();
    if len < n {
        return None;
    }
    let head = text.substring_char(0, n);
    if same_text(head, prefix) {
        let rest = text.substring_char(n, len);
        proof {
            assert(text@.subrange(0, n as int) == prefix@);
            assert(text@ =~= prefix@ + rest@);
            assert(rest@ =~= text@.skip(prefix@.len() as int));
        }
        Some(rest)
    } else {
        proof {
            if prefix@.is_prefix_of(text@) {
                assert(head@ =~= prefix@);
            }
        }
        None
    }
}

/// Whether bytes come before others, or equal them, in the order of their first
/// difference. A beginning comes before the whole.
pub open spec fn bytes_le(left: Seq<u8>, right: Seq<u8>) -> bool
    decreases left.len(),
{
    if left.len() == 0 {
        true
    } else if right.len() == 0 {
        false
    } else if left[0] != right[0] {
        left[0] < right[0]
    } else {
        bytes_le(left.drop_first(), right.drop_first())
    }
}

/// Whether a text comes before another, or equals it, in the order of their
/// encoded bytes.
pub open spec fn text_le(left: Seq<char>, right: Seq<char>) -> bool {
    bytes_le(vstd::utf8::encode_utf8(left), vstd::utf8::encode_utf8(right))
}

pub proof fn lemma_bytes_le_total(left: Seq<u8>, right: Seq<u8>)
    ensures
        bytes_le(left, right) || bytes_le(right, left),
        bytes_le(left, left),
    decreases left.len(),
{
    if left.len() > 0 {
        lemma_bytes_le_total(left.drop_first(), right.drop_first());
    }
}

pub proof fn lemma_bytes_le_transitive(a: Seq<u8>, b: Seq<u8>, c: Seq<u8>)
    requires
        bytes_le(a, b),
        bytes_le(b, c),
    ensures
        bytes_le(a, c),
    decreases a.len(),
{
    if a.len() > 0 && b.len() > 0 && c.len() > 0 && a[0] == b[0] && b[0] == c[0] {
        lemma_bytes_le_transitive(a.drop_first(), b.drop_first(), c.drop_first());
    }
}

/// Compare two texts by their encoded bytes.
pub fn is_text_le(left: &str, right: &str) -> (le: bool)
    ensures
        le == text_le(left@, right@),
{
    let l = left.as_bytes();
    let r = right.as_bytes();
    assert(l@.skip(0) =~= l@);
    assert(r@.skip(0) =~= r@);
    let mut i: usize = 0;
    while i < l.len()
        invariant
            i <= l.len(),
            i <= r.len(),
            l@ == left.spec_bytes(),
            r@ == right.spec_bytes(),
            bytes_le(l@, r@) == bytes_le(l@.skip(i as int), r@.skip(i as int)),
        decreases l.len() - i,
    {
        if i >= r.len() {
            return false;
        }
        proof {
            assert(l@.skip(i as int)[0] == l@[i as int]);
            assert(r@.skip(i as int)[0] == r@[i as int]);
            assert(l@.skip(i as int).drop_first() =~= l@.skip(i + 1));
            assert(r@.skip(i as int).drop_first() =~= r@.skip(i + 1));
        }
        if l[i] != r[i] {
            return l[i] < r[i];
        }
        i = i + 1;
    }
    true
}

/// Whether texts stand in the order of their encoded bytes.
pub open spec fn is_sorted(texts: Seq<String>) -> bool {
    forall|i: int, j: int| 0 <= i < j < texts.len() ==> text_le(texts[i]@, texts[j]@)
}

/// Insert a text into sorted ones, behind its equals.
pub fn insert_sorted(texts: &mut Vec<String>, text: String)
    requires
        is_sorted(old(texts)@),
    ensures
        is_sorted(final(texts)@),
        final(texts)@.to_multiset() == old(texts)@.to_multiset().insert(text),
{
    let ghost before = texts@;
    let mut at: usize = texts.len();
    while at > 0 && !is_text_le(texts[at - 1].as_str(), text.as_str())
        invariant
            at <= texts.len(),
            texts@ == before,
            is_sorted(before),
            forall|k: int| at <= k < before.len() ==> text_le(text@, before[k]@),
        decreases at,
    {
        proof {
            lemma_bytes_le_total(
                vstd::utf8::encode_utf8(text@),
                vstd::utf8::encode_utf8(before[at - 1]@),
            );
        }
        at = at - 1;
    }
    texts.insert(at, text);
    proof {
        vstd::seq_lib::to_multiset_insert(before, at as int, text);
        assert forall|i: int, j: int| 0 <= i < j < texts@.len() implies text_le(
            texts@[i]@,
            texts@[j]@,
        ) by {
            if j == at && i < at - 1 {
                assert(text_le(before[i]@, before[at - 1]@));
                assert(text_le(before[at - 1]@, text@));
                lemma_bytes_le_transitive(
                    vstd::utf8::encode_utf8(before[i]@),
                    vstd::utf8::encode_utf8(before[at - 1]@),
                    vstd::utf8::encode_utf8(text@),
                );
            }
        }
    }
}

/// The code of a character, with capital ASCII letters taken as small ones.
pub open spec fn folded(c: char) -> int {
    if 'A' <= c <= 'Z' {
        c as int + 32
    } else {
        c as int
    }
}

/// Whether two texts are the same but for the case of ASCII letters.
pub open spec fn same_but_for_case(left: Seq<char>, right: Seq<char>) -> bool {
    left.len() == right.len() && forall|i: int|
        0 <= i < left.len() ==> folded(#[trigger] left[i]) == folded(right[i])
}

fn fold(c: char) -> (code: u32)
    ensures
        code == folded(c),
{
    if 'A' <= c && c <= 'Z' {
        c as u32 + 32
    } else {
        c as u32
    }
}

/// Compare two texts without regard to the case of ASCII letters.
pub fn eq_ignore_ascii_case(left: &str, right: &str) -> (same: bool)
    ensures
        same == same_but_for_case(left@, right@),
{
    let n: usize = left.unicode_len();
    if n != right.unicode_len() {
        return false;
    }
    let mut i: usize = 0;
    while i < n
        invariant
            i <= n,
            n == left@.len(),
            n == right@.len(),
            forall|j: int| 0 <= j < i ==> folded(#[trigger] left@[j]) == folded(right@[j]),
        decreases n - i,
    {
        if fold(left.get_char(i)) != fold(right.get_char(i)) {
            return false;
        }
        i = i + 1;
    }
    true
}

/// The hexadecimal digit of a number below sixteen.
pub open spec fn hex_digit(d: nat) -> char {
    if d < 10 {
        (48 + d) as char
    } else {
        (87 + d) as char
    }
}

/// A number in hexadecimal notation, in small letters, without leading zeros.
pub open spec fn hexadecimal(n: nat) -> Seq<char>
    decreases n,
{
    if n < 16 {
        seq![hex_digit(n)]
    } else {
        hexadecimal(n / 16).push(hex_digit(n % 16))
    }
}

/// `n` written in hexadecimal.
pub fn hexadecimal_text(n: u128) -> (text: String)
    ensures
        text@ == hexadecimal(n as nat),
    decreases n,
{
    if n >= 16 {
        let mut text = hexadecimal_text(n / 16);
        text.append(hexadecimal_text(n % 16).as_str());
        assert(text@ =~= hexadecimal(n as nat));
        return text;
    }
    if n < 10 {
        return digit_text(n).to_owned();
    }
    proof {
        reveal_strlit("a");
        reveal_strlit("b");
        reveal_strlit("c");
        reveal_strlit("d");
        reveal_strlit("e");
        reveal_strlit("f");
    }
    let text = if n == 10 {
        "a"
    } else if n == 11 {
        "b"
    } else if n == 12 {
        "c"
    } else if n == 13 {
        "d"
    } else if n == 14 {
        "e"
    } else {
        "f"
    };
    assert(text@ =~= hexadecimal(n as nat));
    text.to_owned()
}

/// The number of bytes of a character in UTF-8.
pub open spec fn utf8_len(c: char) -> nat {
    if (c as int) < 0x80 {
        1
    } else if (c as int) < 0x800 {
        2
    } else if (c as int) < 0x10000 {
        3
    } else {
        4
    }
}

/// The number of bytes of a text in UTF-8.
pub open spec fn byte_len(text: Seq<char>) -> nat
    decreases text.len(),
{
    if text.len() == 0 {
        0
    } else {
        byte_len(text.drop_last()) + utf8_len(text.last())
    }
}

/// The characters at the beginning of a text that end within so many bytes.
pub open spec fn byte_prefix(text: Seq<char>, bytes: int) -> Seq<char>
    decreases text.len(),
{
    if byte_len(text) <= bytes || text.len() == 0 {
        text
    } else {
        byte_prefix(text.drop_last(), bytes)
    }
}

fn char_bytes(c: char) -> (bytes: u128)
    ensures
        bytes == utf8_len(c),
{
    let code: u32 = c as u32;
    if code < 0x80 {
        1
    } else if code < 0x800 {
        2
    } else if code < 0x10000 {
        3
    } else {
        4
    }
}

/// The number of bytes of a text in UTF-8.
pub fn bytes_in(text: &str) -> (bytes: u128)
    ensures
        bytes == byte_len(text@),
{
    let n: usize = text.unicode_len();
    let mut bytes: u128 = 0;
    let mut i: usize = 0;
    assert(text@.take(0).len() == 0);
    while i < n
        invariant
            i <= n,
            n == text@.len(),
            bytes == byte_len(text@.take(i as int)),
            bytes <= 4 * i,
        decreases n - i,
    {
        assert(text@.take(i + 1).drop_last() =~= text@.take(i as int));
        bytes = bytes + char_bytes(text.get_char(i));
        i = i + 1;
    }
    assert(text@.take(i as int) =~= text@);
    bytes
}

/// The characters at the beginning of a text that end within so many bytes.
pub fn first_bytes(text: &str, bytes: u128) -> (prefix: String)
    ensures
        prefix@ == byte_prefix(text@, bytes as int),
{
    let mut end: usize = text.unicode_len();
    let mut used: u128 = bytes_in(text);
    assert(text@.take(end as int) =~= text@);
    while end > 0 && used > bytes
        invariant
            end <= text@.len(),
            used == byte_len(text@.take(end as int)),
            byte_prefix(text@, bytes as int) == byte_prefix(text@.take(end as int), bytes as int),
        decreases end,
    {
        assert(text@.take(end as int).drop_last() =~= text@.take(end - 1));
        used = used - char_bytes(text.get_char(end - 1));
        end = end - 1;
    }
    assert(text@.subrange(0, end as int) =~= text@.take(end as int));
    text.substring_char(0, end).to_owned()
}

/// `text` written so many times.
pub open spec fn repeated(text: Seq<char>, times: nat) -> Seq<char>
    decreases times,
{
    if times == 0 {
        Seq::empty()
    } else {
        repeated(text, (times - 1) as nat) + text
    }
}

/// Write a text so many times.
pub fn repeat(text: &str, times: u16) -> (all: String)
    ensures
        all@ == repeated(text@, times as nat),
{
    proof {
        reveal_strlit("");
    }
    let mut all = "".to_owned();
    assert(all@ =~= Seq::<char>::empty());
    let mut i: u16 = 0;
    while i < times
        invariant
            i <= times,
            all@ == repeated(text@, i as nat),
        decreases times - i,
    {
        all.append(text);
        i = i + 1;
    }
    all
}

/// A machine number has at most thirty-nine digits.
pub proof fn lemma_decimal_is_short(n: nat)
    requires
        n <= u128::MAX,
    ensures
        decimal(n).len() <= 39,
{
    assert(n < ten_to(39)) by {
        reveal_with_fuel(ten_to, 40);
    }
    lemma_digits(n, 39);
}

/// A power of ten.
pub open spec fn ten_to(digits: nat) -> nat
    decreases digits,
{
    if digits == 0 {
        1
    } else {
        10 * ten_to((digits - 1) as nat)
    }
}

proof fn lemma_digits(n: nat, digits: nat)
    requires
        digits > 0,
        n < ten_to(digits),
    ensures
        decimal(n).len() <= digits,
    decreases digits,
{
    if n >= 10 {
        assert(digits > 1) by {
            if digits == 1 {
                reveal_with_fuel(ten_to, 2);
            }
        }
        lemma_digits(n / 10, (digits - 1) as nat);
    }
}

/// A text has at most four bytes for each character.
pub proof fn lemma_byte_len_is_bounded(text: Seq<char>)
    ensures
        byte_len(text) <= 4 * text.len(),
    decreases text.len(),
{
    if text.len() > 0 {
        lemma_byte_len_is_bounded(text.drop_last());
    }
}

/// A text with spaces behind it up to a width in characters.
pub open spec fn padded(text: Seq<char>, width: nat) -> Seq<char> {
    text + repeated(" "@, (if width > text.len() { width - text.len() } else { 0 }) as nat)
}

/// Write a text with spaces behind it up to a width in characters.
pub fn pad(text: &str, width: usize) -> (all: String)
    ensures
        all@ == padded(text@, width as nat),
{
    let mut all = text.to_owned();
    let len: usize = text.unicode_len();
    let missing: usize = width.saturating_sub(len);
    let mut i: usize = 0;
    assert(all@ =~= text@ + repeated(" "@, 0));
    while i < missing
        invariant
            i <= missing,
            all@ == text@ + repeated(" "@, i as nat),
        decreases missing - i,
    {
        all.append(" ");
        i = i + 1;
        assert(all@ =~= text@ + repeated(" "@, i as nat));
    }
    all
}

/// The number that decimal digits stand for.
pub open spec fn decimal_value(text: Seq<char>) -> int
    decreases text.len(),
{
    if text.len() == 0 {
        0
    } else {
        10 * decimal_value(text.drop_last()) + (text.last() as int - '0' as int)
    }
}

/// A number in decimal notation reads as that number, so two numbers never look
/// the same; it is made of digits alone and has no leading zero.
pub proof fn law_decimals_read_back(n: nat)
    ensures
        decimal_value(decimal(n)) == n,
        decimal(n).len() > 0,
        n > 0 ==> decimal(n)[0] != '0',
        forall|i: int| 0 <= i < decimal(n).len() ==> '0' <= #[trigger] decimal(n)[i] <= '9',
    decreases n,
{
    if n < 10 {
        assert(decimal(n).drop_last() =~= Seq::<char>::empty());
        assert(decimal_value(Seq::<char>::empty()) == 0);
    } else {
        law_decimals_read_back(n / 10);
        assert(decimal(n).drop_last() =~= decimal(n / 10));
    }
}

/// The value of a hexadecimal digit in small letters.
pub open spec fn hex_value(c: char) -> int {
    if c <= '9' {
        c as int - '0' as int
    } else {
        c as int - 'a' as int + 10
    }
}

/// The number that hexadecimal digits stand for.
pub open spec fn hexadecimal_value(text: Seq<char>) -> int
    decreases text.len(),
{
    if text.len() == 0 {
        0
    } else {
        16 * hexadecimal_value(text.drop_last()) + hex_value(text.last())
    }
}

/// A number in hexadecimal notation reads as that number.
pub proof fn law_hexadecimals_read_back(n: nat)
    ensures
        hexadecimal_value(hexadecimal(n)) == n,
        hexadecimal(n).len() > 0,
    decreases n,
{
    if n < 16 {
        assert(hexadecimal(n).drop_last() =~= Seq::<char>::empty());
        assert(hexadecimal_value(Seq::<char>::empty()) == 0);
    } else {
        law_hexadecimals_read_back(n / 16);
        assert(hexadecimal(n).drop_last() =~= hexadecimal(n / 16));
    }
}

/// The characters that end within so many bytes are a beginning of the text,
/// fit, and one more would not.
pub proof fn law_byte_prefixes_are_longest(text: Seq<char>, bytes: int)
    requires
        bytes >= 0,
    ensures
        byte_prefix(text, bytes).is_prefix_of(text),
        byte_len(byte_prefix(text, bytes)) <= bytes,
        byte_prefix(text, bytes).len() < text.len() ==> byte_len(
            text.take(byte_prefix(text, bytes).len() as int + 1),
        ) > bytes,
    decreases text.len(),
{
    if byte_len(text) <= bytes || text.len() == 0 {
        assert(text =~= text.subrange(0, text.len() as int));
    } else {
        let shorter = text.drop_last();
        law_byte_prefixes_are_longest(shorter, bytes);
        let kept = byte_prefix(text, bytes);
        assert(kept == byte_prefix(shorter, bytes));
        assert(kept =~= text.subrange(0, kept.len() as int)) by {
            assert(kept =~= shorter.subrange(0, kept.len() as int));
        }
        if kept.len() < shorter.len() {
            assert(text.take(kept.len() as int + 1) =~= shorter.take(kept.len() as int + 1));
        } else {
            assert(text.take(kept.len() as int + 1) =~= text);
        }
    }
}

/// A text that is written so many times is so many times as long, and each part
/// of it is the text.
pub proof fn law_repetition_repeats(text: Seq<char>, times: nat, k: nat)
    requires
        k < times,
    ensures
        repeated(text, times).len() == times * text.len(),
        k * text.len() + text.len() <= times * text.len(),
        repeated(text, times).subrange(
            (k * text.len()) as int,
            (k * text.len() + text.len()) as int,
        ) == text,
    decreases times,
{
    let before = (times - 1) as nat;
    lemma_repeated_len(text, before);
    lemma_repeated_len(text, times);
    assert(times * text.len() == before * text.len() + text.len()) by (nonlinear_arith)
        requires
            times == before + 1,
    ;
    if k == before {
        assert(repeated(text, times).subrange(
            (k * text.len()) as int,
            (k * text.len() + text.len()) as int,
        ) =~= text);
    } else {
        law_repetition_repeats(text, before, k);
        assert(repeated(text, times).subrange(
            (k * text.len()) as int,
            (k * text.len() + text.len()) as int,
        ) =~= repeated(text, before).subrange(
            (k * text.len()) as int,
            (k * text.len() + text.len()) as int,
        ));
    }
}

proof fn lemma_repeated_len(text: Seq<char>, times: nat)
    ensures
        repeated(text, times).len() == times * text.len(),
    decreases times,
{
    if times == 0 {
        assert(0 * text.len() == 0) by (nonlinear_arith);
    } else {
        let before = (times - 1) as nat;
        lemma_repeated_len(text, before);
        assert(times * text.len() == before * text.len() + text.len()) by (nonlinear_arith)
            requires
                times == before + 1,
        ;
    }
}

/// A text that is padded starts with itself, has at least the width, and is no
/// longer where it was not already; what is added is blank.
pub proof fn law_padding_reaches_the_width(text: Seq<char>, width: nat)
    ensures
        text.is_prefix_of(padded(text, width)),
        text.len() >= width ==> padded(text, width) == text,
        text.len() < width ==> padded(text, width).len() == width,
        forall|i: int|
            text.len() <= i < padded(text, width).len() ==> #[trigger] padded(text, width)[i] == ' ',
{
    reveal_strlit(" ");
    let missing = (if width > text.len() {
        width - text.len()
    } else {
        0
    }) as nat;
    lemma_repeated_len(" "@, missing);
    assert(missing * 1 == missing) by (nonlinear_arith);
    let all = padded(text, width);
    assert(text =~= all.subrange(0, text.len() as int));
    if missing == 0 {
        assert(all =~= text);
    }
    assert forall|i: int| text.len() <= i < all.len() implies #[trigger] all[i] == ' ' by {
        lemma_blanks(missing, i - text.len());
        assert(all[i] == repeated(" "@, missing)[i - text.len()]);
    }
}

proof fn lemma_blanks(times: nat, i: int)
    requires
        0 <= i < repeated(" "@, times).len(),
    ensures
        repeated(" "@, times)[i] == ' ',
    decreases times,
{
    reveal_strlit(" ");
    if times > 0 {
        let before = repeated(" "@, (times - 1) as nat);
        if i < before.len() {
            lemma_blanks((times - 1) as nat, i);
        }
    }
}

/// The order of texts is total, and comparing the first byte that differs
/// decides it.
pub proof fn law_the_first_difference_decides(
    common: Seq<u8>,
    left: Seq<u8>,
    right: Seq<u8>,
)
    requires
        left.len() > 0,
        right.len() > 0,
        left[0] < right[0],
    ensures
        bytes_le(common + left, common + right),
        !bytes_le(common + right, common + left),
        bytes_le(common, common + left),
        !bytes_le(common + left, common),
    decreases common.len(),
{
    if common.len() == 0 {
        assert(common + left =~= left);
        assert(common + right =~= right);
    } else {
        let rest = common.drop_first();
        law_the_first_difference_decides(rest, left, right);
        assert((common + left).drop_first() =~= rest + left);
        assert((common + right).drop_first() =~= rest + right);
    }
}

/// A prefix is taken off exactly where the text begins with it, and what is left
/// makes the text whole again.
pub proof fn law_prefixes_are_taken_off<'a>(text: &'a str, prefix: &str, rest: Option<&'a str>)
    requires
        call_ensures(strip_prefix, (text, prefix), rest),
    ensures
        rest is Some ==> prefix@ + rest->0@ == text@,
        forall|tail: Seq<char>| #[trigger] (prefix@ + tail) == text@ ==> rest is Some,
{
    assert forall|tail: Seq<char>| #[trigger] (prefix@ + tail) == text@ implies rest is Some by {
        assert(text@.subrange(0, prefix@.len() as int) =~= prefix@);
    }
}

/// The place that is told for a text among others is its first one.
pub proof fn law_the_first_of_equals_is_found(
    texts: Vec<String>,
    wanted: &str,
    at: Option<usize>,
)
    requires
        call_ensures(position_of, (&texts, wanted), at),
        at is Some,
    ensures
        at->0 < texts@.len(),
        texts@[at->0 as int]@ == wanted@,
        forall|j: int| 0 <= j < at->0 ==> (#[trigger] texts@[j])@ != wanted@,
{
}

/// A label and its detail are parted by a colon and a space.
pub proof fn law_labels_come_before_details(label: &str, detail: &str, text: String)
    requires
        call_ensures(labelled, (label, detail), text),
    ensures
        label@.is_prefix_of(text@),
        detail@.is_suffix_of(text@),
        text@.len() == label@.len() + detail@.len() + 2,
{
    reveal_strlit(": ");
    assert(text@.subrange(0, label@.len() as int) =~= label@);
    assert(text@.subrange(text@.len() - detail@.len(), text@.len() as int) =~= detail@);
}

/// Inserting a text into sorted ones keeps them sorted and keeps each of them.
pub proof fn law_insertion_keeps_the_order(texts: &mut Vec<String>, text: String)
    requires
        is_sorted(old(texts)@),
        call_ensures(insert_sorted, (texts, text), ()),
    ensures
        final(texts)@.len() == old(texts)@.len() + 1,
        forall|other: String| #[trigger]
            final(texts)@.contains(other) <==> old(texts)@.contains(other) || other == text,
        forall|i: int, j: int|
            0 <= i < j < final(texts)@.len() ==> bytes_le(
                vstd::utf8::encode_utf8((#[trigger] final(texts)@[i])@),
                vstd::utf8::encode_utf8((#[trigger] final(texts)@[j])@),
            ),
{
    broadcast use vstd::seq_lib::group_to_multiset_ensures;

    let before = old(texts)@.to_multiset();
    let after = final(texts)@.to_multiset();
    assert(after.len() == before.len() + 1);
    assert forall|other: String| #[trigger]
        final(texts)@.contains(other) <==> old(texts)@.contains(other) || other == text by {
        assert(after.count(other) == before.insert(text).count(other));
    }
    assert forall|i: int, j: int| 0 <= i < j < final(texts)@.len() implies bytes_le(
        vstd::utf8::encode_utf8((#[trigger] final(texts)@[i])@),
        vstd::utf8::encode_utf8((#[trigger] final(texts)@[j])@),
    ) by {
        assert(text_le(final(texts)@[i]@, final(texts)@[j]@));
    }
}

} // verus!
