//! Text: which characters are white space or control characters, clean names, hexadecimal and
//! decimal digits.

use vstd::prelude::*;
use vstd::string::*;
use vstd::utf8::*;

verus! {

/// `String::push` appends one character.
pub assume_specification[ String::push ](text: &mut String, ch: char)
    ensures
        final(text)@ == old(text)@.push(ch),
;

/// What the standard library says of bytes that are not UTF-8.
pub uninterp spec fn utf8_objection(bytes: Seq<u8>) -> Seq<char>;

/// `String::from_utf8` accepts exactly the bytes that are UTF-8, and gives the text that they
/// encode; the text of its error is a function of the bytes.
#[verifier::external_body]
pub(crate) fn text_of_utf8(bytes: Vec<u8>) -> (text: Result<String, String>)
    ensures
        match text {
            Ok(text) => valid_utf8(bytes@) && text@ == decode_utf8(bytes@),
            Err(error) => !valid_utf8(bytes@) && error@ == utf8_objection(bytes@),
        },
{
    String::from_utf8(bytes).map_err(|error| error.to_string())
}

/// Whether `c` has the Unicode property White_Space.
pub open spec fn is_white_space(c: char) -> bool {
    let n = c as u32;
    ||| 0x9 <= n <= 0xd
    ||| n == 0x20
    ||| n == 0x85
    ||| n == 0xa0
    ||| n == 0x1680
    ||| 0x2000 <= n <= 0x200a
    ||| n == 0x2028
    ||| n == 0x2029
    ||| n == 0x202f
    ||| n == 0x205f
    ||| n == 0x3000
}

/// Whether `c` is a control character: Unicode's general category Cc.
pub open spec fn is_control_char(c: char) -> bool {
    let n = c as u32;
    n <= 0x1f || 0x7f <= n <= 0x9f
}

/// Whether `c` has the Unicode property White_Space.
pub fn white_space(c: char) -> (r: bool)
    ensures
        r == is_white_space(c),
{
    let n: u32 = c as u32;
    (0x9 <= n && n <= 0xd) || n == 0x20 || n == 0x85 || n == 0xa0 || n == 0x1680 || (0x2000 <= n
        && n <= 0x200a) || n == 0x2028 || n == 0x2029 || n == 0x202f || n == 0x205f || n == 0x3000
}

/// Whether `c` is a control character.
pub fn control_char(c: char) -> (r: bool)
    ensures
        r == is_control_char(c),
{
    let n: u32 = c as u32;
    n <= 0x1f || (0x7f <= n && n <= 0x9f)
}

/// Whether a text neither starts nor ends with white space.
pub open spec fn trimmed(text: Seq<char>) -> bool {
    text.len() > 0 ==> !is_white_space(text[0]) && !is_white_space(text.last())
}

/// Whether a text neither starts nor ends with white space and has no control character.
pub open spec fn is_clean(text: Seq<char>) -> bool {
    trimmed(text) && forall|i: int| 0 <= i < text.len() ==> !is_control_char(#[trigger] text[i])
}

/// How many bytes a text takes in UTF-8.
pub open spec fn utf8_len(text: Seq<char>) -> nat {
    encode_utf8(text).len()
}

/// How many bytes `text` takes in UTF-8.
pub fn byte_len(text: &str) -> (len: usize)
    ensures
        len == utf8_len(text@),
{
    text.as_bytes().len()
}

/// The characters of `text`.
pub fn chars_of(text: &str) -> (chars: Vec<char>)
    ensures
        chars@ == text@,
{
    let mut chars: Vec<char> = Vec::new();
    for c in it: text.chars()
        invariant
            chars@ == it.seq().take(it.index() as int),
            it.seq() == text@,
    {
        chars.push(c);
        assert(chars@ =~= it.seq().take(it.index() + 1));
    }
    assert(chars@ =~= text@);
    chars
}

/// The characters from `start` to `end` as a text.
pub fn text_between(chars: &Vec<char>, start: usize, end: usize) -> (text: String)
    requires
        start <= end <= chars@.len(),
    ensures
        text@ == chars@.subrange(start as int, end as int),
{
    let mut text: String = String::new();
    let mut i: usize = start;
    while i < end
        invariant
            start <= i <= end <= chars@.len(),
            text@ == chars@.subrange(start as int, i as int),
        decreases end - i,
    {
        text.push(chars[i]);
        i += 1;
        assert(text@ =~= chars@.subrange(start as int, i as int));
    }
    text
}

/// Whether `text` neither starts nor ends with white space and has no control character.
pub fn clean(text: &str) -> (r: bool)
    ensures
        r == is_clean(text@),
{
    let chars: Vec<char> = chars_of(text);
    if chars.len() == 0 {
        return true;
    }
    if white_space(chars[0]) || white_space(chars[chars.len() - 1]) {
        return false;
    }
    let mut i: usize = 0;
    while i < chars.len()
        invariant
            i <= chars@.len(),
            chars@ == text@,
            forall|j: int| 0 <= j < i ==> !is_control_char(#[trigger] text@[j]),
        decreases chars@.len() - i,
    {
        if control_char(chars[i]) {
            return false;
        }
        i += 1;
    }
    true
}

/// Whether two texts are the same.
pub fn same_text(a: &str, b: &str) -> (same: bool)
    ensures
        same == (a@ == b@),
{
    let x: Vec<char> = chars_of(a);
    let y: Vec<char> = chars_of(b);
    if x.len() != y.len() {
        return false;
    }
    let mut i: usize = 0;
    while i < x.len()
        invariant
            i <= x@.len(),
            x@.len() == y@.len(),
            x@ == a@,
            y@ == b@,
            forall|j: int| 0 <= j < i ==> x@[j] == y@[j],
        decreases x@.len() - i,
    {
        if x[i] != y[i] {
            return false;
        }
        i += 1;
    }
    assert(x@ =~= y@);
    true
}

/// The lower-case hexadecimal digit of `n`.
pub open spec fn hex_digit(n: int) -> char {
    if n < 10 {
        (48 + n) as char
    } else {
        (87 + n) as char
    }
}

/// Two lower-case hexadecimal digits for each byte.
pub open spec fn hex(bytes: Seq<u8>) -> Seq<char> {
    Seq::new(
        2 * bytes.len(),
        |i: int|
            if i % 2 == 0 {
                hex_digit(bytes[i / 2] as int / 16)
            } else {
                hex_digit(bytes[i / 2] as int % 16)
            },
    )
}

/// The lower-case hexadecimal digit of `n`.
pub fn digit_char(n: u8) -> (c: char)
    requires
        n < 16,
    ensures
        c == hex_digit(n as int),
{
    if n < 10 {
        (48 + n) as char
    } else {
        (87 + n) as char
    }
}

/// Appends two lower-case hexadecimal digits for each byte.
pub fn push_hex(text: &mut String, bytes: &[u8])
    ensures
        final(text)@ == old(text)@ + hex(bytes@),
{
    let ghost before = text@;
    let mut i: usize = 0;
    while i < bytes.len()
        invariant
            i <= bytes@.len(),
            text@ == before + hex(bytes@.take(i as int)),
        decreases bytes@.len() - i,
    {
        text.push(digit_char(bytes[i] / 16));
        text.push(digit_char(bytes[i] % 16));
        i += 1;
        proof {
            let done = bytes@.take(i as int);
            let less = bytes@.take(i - 1);
            assert(hex(done) =~= hex(less).push(hex_digit(bytes@[i - 1] as int / 16)).push(
                hex_digit(bytes@[i - 1] as int % 16),
            ));
            assert(text@ =~= before + hex(done));
        }
    }
    assert(bytes@.take(i as int) =~= bytes@);
}

/// `bytes` in lower-case hexadecimal digits.
pub fn to_hex(bytes: &[u8]) -> (text: String)
    ensures
        text@ == hex(bytes@),
{
    let mut text: String = String::new();
    push_hex(&mut text, bytes);
    assert(text@ =~= hex(bytes@));
    text
}

/// The value of a hexadecimal digit of either case.
pub open spec fn digit_value(c: u8) -> Option<u8> {
    if 48 <= c <= 57 {
        Some((c - 48) as u8)
    } else if 97 <= c <= 102 {
        Some((c - 87) as u8)
    } else if 65 <= c <= 70 {
        Some((c - 55) as u8)
    } else {
        None
    }
}

/// The number that two characters spell in base 16; a plus sign may stand in front of one digit.
pub open spec fn pair_value(high: u8, low: u8) -> Option<u8> {
    if high == 43 {
        digit_value(low)
    } else {
        match (digit_value(high), digit_value(low)) {
            (Some(h), Some(l)) => Some((h * 16 + l) as u8),
            _ => None,
        }
    }
}

fn read_digit(c: u8) -> (value: Option<u8>)
    ensures
        value == digit_value(c),
        value matches Some(v) ==> v < 16,
{
    if 48 <= c && c <= 57 {
        Some(c - 48)
    } else if 97 <= c && c <= 102 {
        Some(c - 87)
    } else if 65 <= c && c <= 70 {
        Some(c - 55)
    } else {
        None
    }
}

/// The number that two characters spell in base 16.
pub fn read_pair(high: u8, low: u8) -> (value: Option<u8>)
    ensures
        value == pair_value(high, low),
{
    if high == 43 {
        return read_digit(low);
    }
    match (read_digit(high), read_digit(low)) {
        (Some(h), Some(l)) => Some(h * 16 + l),
        _ => None,
    }
}

/// The 32 bytes that 64 characters spell in base 16, two for each byte.
pub open spec fn hex_value(text: Seq<u8>) -> Option<Seq<u8>> {
    if text.len() == 64 && forall|i: int|
        0 <= i < 32 ==> #[trigger] pair_value(text[2 * i], text[2 * i + 1]) is Some {
        Some(Seq::new(32, |i: int| pair_value(text[2 * i], text[2 * i + 1])->0))
    } else {
        None
    }
}

/// The 32 bytes that 64 characters spell in base 16.
pub fn read_hex_32(text: &[u8]) -> (value: Option<[u8; 32]>)
    ensures
        match value {
            Some(bytes) => hex_value(text@) == Some(bytes@),
            None => hex_value(text@) is None,
        },
{
    if text.len() != 64 {
        return None;
    }
    let mut bytes: [u8; 32] = [0u8; 32];
    let mut i: usize = 0;
    while i < 32
        invariant
            i <= 32,
            text@.len() == 64,
            bytes@.len() == 32,
            forall|j: int|
                0 <= j < i ==> #[trigger] pair_value(text@[2 * j], text@[2 * j + 1]) == Some(bytes@[j]),
        decreases 32 - i,
    {
        match read_pair(text[2 * i], text[2 * i + 1]) {
            Some(byte) => {
                bytes[i] = byte;
            },
            None => {
                assert(pair_value(text@[2 * i], text@[2 * i + 1]) is None);
                return None;
            },
        }
        i += 1;
    }
    assert(Seq::new(32, |i: int| pair_value(text@[2 * i], text@[2 * i + 1])->0) =~= bytes@);
    Some(bytes)
}

proof fn hex_digit_reads_back(n: int)
    requires
        0 <= n < 16,
    ensures
        (hex_digit(n) as u32) < 128,
        digit_value(hex_digit(n) as u8) == Some(n as u8),
        hex_digit(n) as u8 != 43,
{
}

/// Reading the hexadecimal digits of 32 bytes gives the bytes.
pub proof fn hex_reads_back(bytes: Seq<u8>)
    requires
        bytes.len() == 32,
    ensures
        hex_value(encode_utf8(hex(bytes))) == Some(bytes),
        encode_utf8(hex(bytes)).len() == 64,
        forall|i: int| 0 <= i < 64 ==> hex(bytes)[i] != ':',
        forall|i: int| 0 <= i < 64 ==> (hex(bytes)[i] as u32) < 128,
{
    let text = hex(bytes);
    assert forall|i: int| 0 <= i < text.len() implies (text[i] as u32) < 128 && text[i] != ':' by {
        hex_digit_reads_back(bytes[i / 2] as int / 16);
        hex_digit_reads_back(bytes[i / 2] as int % 16);
    }
    assert(is_ascii_chars(text));
    is_ascii_chars_encode_utf8(text);
    let encoded = encode_utf8(text);
    assert(encoded.len() == 64);
    assert forall|i: int| 0 <= i < 32 implies #[trigger] pair_value(
        encoded[2 * i],
        encoded[2 * i + 1],
    ) == Some(bytes[i]) by {
        hex_digit_reads_back(bytes[i] as int / 16);
        hex_digit_reads_back(bytes[i] as int % 16);
        assert((2 * i) / 2 == i && (2 * i + 1) / 2 == i);
        assert(encoded[2 * i] == text[2 * i] as u8);
        assert(encoded[2 * i + 1] == text[2 * i + 1] as u8);
        assert(bytes[i] as int / 16 * 16 + bytes[i] as int % 16 == bytes[i]);
    }
    assert(Seq::new(32, |i: int| pair_value(encoded[2 * i], encoded[2 * i + 1])->0) =~= bytes);
}

/// The decimal digits of `n`.
pub open spec fn decimal(n: nat) -> Seq<char>
    decreases n,
{
    if n < 10 {
        seq![hex_digit(n as int)]
    } else {
        decimal(n / 10).push(hex_digit((n % 10) as int))
    }
}

/// Appends the decimal digits of `n`.
pub fn push_decimal(text: &mut String, n: u64)
    ensures
        final(text)@ == old(text)@ + decimal(n as nat),
    decreases n,
{
    let ghost before = text@;
    if n < 10 {
        text.push(digit_char(n as u8));
        assert(text@ =~= before + decimal(n as nat));
    } else {
        push_decimal(text, n / 10);
        text.push(digit_char((n % 10) as u8));
        assert(text@ =~= before + decimal(n as nat));
    }
}

/// Appends `tail` to `text`.
pub fn push_text(text: &mut String, tail: &str)
    ensures
        final(text)@ == old(text)@ + tail@,
{
    let ghost before = text@;
    for c in it: tail.chars()
        invariant
            text@ == before + it.seq().take(it.index() as int),
            it.seq() == tail@,
    {
        text.push(c);
        assert(text@ =~= before + it.seq().take(it.index() + 1));
    }
    assert(tail@.take(tail@.len() as int) =~= tail@);
}

/// The number that decimal digits spell.
pub open spec fn spelled(digits: Seq<char>) -> nat
    decreases digits.len(),
{
    if digits.len() == 0 {
        0
    } else {
        spelled(digits.drop_last()) * 10 + ((digits.last() as nat) - ('0' as nat)) as nat
    }
}

/// The decimal digits of a number are digits, spell the number, and have no zero in front but for
/// the number zero.
pub proof fn decimals_spell_their_number(n: nat)
    ensures
        spelled(decimal(n)) == n,
        decimal(n).len() > 0,
        forall|i: int| 0 <= i < decimal(n).len() ==> '0' <= #[trigger] decimal(n)[i] <= '9',
        n > 0 ==> decimal(n)[0] != '0',
    decreases n,
{
    let all = decimal(n);
    if n < 10 {
        assert(all.drop_last() =~= Seq::<char>::empty());
        assert(all.last() == hex_digit(n as int));
        assert(spelled(all.drop_last()) == 0);
        assert((all.last() as nat) - ('0' as nat) == n);
    } else {
        decimals_spell_their_number(n / 10);
        assert(all.drop_last() =~= decimal(n / 10));
        assert(all.last() == hex_digit((n % 10) as int));
        assert((all.last() as nat) - ('0' as nat) == n % 10);
        assert(all.len() > 0 && spelled(all) == spelled(all.drop_last()) * 10 + n % 10);
    }
}

} // verus!
