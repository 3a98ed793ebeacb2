//! Lower-case hexadecimal text for byte strings: two digits per byte, high
//! digit first. Only what the encoder writes is read back.

use vstd::prelude::*;
use vstd::string::*;

verus! {

/// The sixteen digits as one-character texts, by value.
pub const DIGITS: [&'static str; 16] = [
    "0",
    "1",
    "2",
    "3",
    "4",
    "5",
    "6",
    "7",
    "8",
    "9",
    "a",
    "b",
    "c",
    "d",
    "e",
    "f",
];

/// The digit that stands for a value below sixteen.
pub open spec fn digit_of(n: int) -> char {
    if n == 0 {
        '0'
    } else if n == 1 {
        '1'
    } else if n == 2 {
        '2'
    } else if n == 3 {
        '3'
    } else if n == 4 {
        '4'
    } else if n == 5 {
        '5'
    } else if n == 6 {
        '6'
    } else if n == 7 {
        '7'
    } else if n == 8 {
        '8'
    } else if n == 9 {
        '9'
    } else if n == 10 {
        'a'
    } else if n == 11 {
        'b'
    } else if n == 12 {
        'c'
    } else if n == 13 {
        'd'
    } else if n == 14 {
        'e'
    } else {
        'f'
    }
}

/// The value of a digit, `None` for any other character.
pub open spec fn value_of(c: char) -> Option<u8> {
    if c == '0' {
        Some(0u8)
    } else if c == '1' {
        Some(1u8)
    } else if c == '2' {
        Some(2u8)
    } else if c == '3' {
        Some(3u8)
    } else if c == '4' {
        Some(4u8)
    } else if c == '5' {
        Some(5u8)
    } else if c == '6' {
        Some(6u8)
    } else if c == '7' {
        Some(7u8)
    } else if c == '8' {
        Some(8u8)
    } else if c == '9' {
        Some(9u8)
    } else if c == 'a' {
        Some(10u8)
    } else if c == 'b' {
        Some(11u8)
    } else if c == 'c' {
        Some(12u8)
    } else if c == 'd' {
        Some(13u8)
    } else if c == 'e' {
        Some(14u8)
    } else if c == 'f' {
        Some(15u8)
    } else {
        None
    }
}

/// The text of a byte string.
pub open spec fn hex_text(bytes: Seq<u8>) -> Seq<char> {
    Seq::new(
        2 * bytes.len(),
        |i: int|
            if i % 2 == 0 {
                digit_of(bytes[i / 2] as int / 16)
            } else {
                digit_of(bytes[i / 2] as int % 16)
            },
    )
}

/// Whether a text is made of digits, two for each byte.
pub open spec fn is_hex(text: Seq<char>) -> bool {
    &&& text.len() % 2 == 0
    &&& forall|i: int| 0 <= i < text.len() ==> (#[trigger] value_of(text[i])) is Some
}

/// The byte string that a text stands for, `None` where it is no hex text.
pub open spec fn hex_bytes(text: Seq<char>) -> Option<Seq<u8>> {
    if is_hex(text) {
        Some(
            Seq::new(
                text.len() / 2,
                |i: int| (value_of(text[2 * i])->0 * 16 + value_of(text[2 * i + 1])->0) as u8,
            ),
        )
    } else {
        None
    }
}

/// A digit's value is the value it was written for.
pub proof fn lemma_digit_value(n: int)
    requires
        0 <= n < 16,
    ensures
        value_of(digit_of(n)) == Some(n as u8),
        digit_of(n) != '.',
{
}

/// Reading the text of a byte string gives the byte string back, and the
/// text holds no full stop.
pub proof fn lemma_hex_round_trip(bytes: Seq<u8>)
    ensures
        hex_bytes(hex_text(bytes)) == Some(bytes),
        forall|i: int| 0 <= i < hex_text(bytes).len() ==> hex_text(bytes)[i] != '.',
        hex_text(bytes).len() == 2 * bytes.len(),
{
    let text = hex_text(bytes);
    assert forall|i: int| 0 <= i < text.len() implies (#[trigger] value_of(text[i])) is Some
        && text[i] != '.' by {
        let b = bytes[i / 2] as int;
        lemma_digit_value(b / 16);
        lemma_digit_value(b % 16);
    }
    assert(is_hex(text));
    let back = hex_bytes(text)->0;
    assert forall|k: int| 0 <= k < bytes.len() implies back[k] == bytes[k] by {
        let b = bytes[k] as int;
        lemma_digit_value(b / 16);
        lemma_digit_value(b % 16);
        assert((2 * k) % 2 == 0);
        assert((2 * k) / 2 == k);
        assert((2 * k + 1) % 2 == 1);
        assert((2 * k + 1) / 2 == k);
        assert(text[2 * k] == digit_of(b / 16));
        assert(text[2 * k + 1] == digit_of(b % 16));
    }
    assert(back =~= bytes);
}

/// A hex text is the text of the bytes that it stands for.
pub proof fn lemma_hex_canonical(text: Seq<char>)
    requires
        hex_bytes(text) is Some,
    ensures
        hex_text(hex_bytes(text)->0) == text,
{
    let bytes = hex_bytes(text)->0;
    assert forall|i: int| 0 <= i < text.len() implies hex_text(bytes)[i] == text[i] by {
        let k = i / 2;
        let high = value_of(text[2 * k]);
        let low = value_of(text[2 * k + 1]);
        assert(high is Some && low is Some);
        assert((high->0 * 16 + low->0) / 16 == high->0);
        assert((high->0 * 16 + low->0) % 16 == low->0);
    }
    assert(hex_text(bytes) =~= text);
}

/// The one-character text of a digit.
fn digit_str(n: u8) -> (s: &'static str)
    requires
        n < 16,
    ensures
        s@ == seq![digit_of(n as int)],
{
    proof {
        reveal_strlit("0");
        reveal_strlit("1");
        reveal_strlit("2");
        reveal_strlit("3");
        reveal_strlit("4");
        reveal_strlit("5");
        reveal_strlit("6");
        reveal_strlit("7");
        reveal_strlit("8");
        reveal_strlit("9");
        reveal_strlit("a");
        reveal_strlit("b");
        reveal_strlit("c");
        reveal_strlit("d");
        reveal_strlit("e");
        reveal_strlit("f");
    }
    let s = DIGITS[n as usize];
    assert(s@ =~= seq![digit_of(n as int)]);
    s
}

/// Appends the text of a byte string to `out`.
pub fn push_hex(out: &mut String, bytes: &[u8])
    ensures
        final(out)@ == old(out)@ + hex_text(bytes@),
{
    let mut i: usize = 0;
    assert(hex_text(bytes@.take(0)) =~= Seq::<char>::empty());
    while i < bytes.len()
        invariant
            i <= bytes.len(),
            out@ == old(out)@ + hex_text(bytes@.take(i as int)),
        decreases bytes.len() - i,
    {
        let b = bytes[i];
        out.append(digit_str(b / 16));
        out.append(digit_str(b % 16));
        assert(hex_text(bytes@.take(i + 1)) =~= hex_text(bytes@.take(i as int)) + seq![
            digit_of(b as int / 16),
        ] + seq![digit_of(b as int % 16)]);
        i += 1;
    }
    assert(bytes@.take(i as int) =~= bytes@);
}

/// The value of a digit, `None` for any other character.
pub fn digit_value(c: char) -> (v: Option<u8>)
    ensures
        v == value_of(c),
{
    match c {
        '0' => Some(0),
        '1' => Some(1),
        '2' => Some(2),
        '3' => Some(3),
        '4' => Some(4),
        '5' => Some(5),
        '6' => Some(6),
        '7' => Some(7),
        '8' => Some(8),
        '9' => Some(9),
        'a' => Some(10),
        'b' => Some(11),
        'c' => Some(12),
        'd' => Some(13),
        'e' => Some(14),
        'f' => Some(15),
        _ => None,
    }
}

/// Reads the hex text that stands between two positions of `text`.
pub fn parse_hex(text: &Vec<char>, from: usize, to: usize) -> (r: Option<Vec<u8>>)
    requires
        from <= to <= text.len(),
    ensures
        match r {
            Some(bytes) => hex_bytes(text@.subrange(from as int, to as int)) == Some(bytes@),
            None => hex_bytes(text@.subrange(from as int, to as int)) is None,
        },
{
    let ghost part = text@.subrange(from as int, to as int);
    if (to - from) % 2 != 0 {
        return None;
    }
    let mut bytes: Vec<u8> = Vec::new();
    let mut i: usize = from;
    while i < to
        invariant
            from <= i <= to <= text.len(),
            (to - from) % 2 == 0,
            (i - from) % 2 == 0,
            part == text@.subrange(from as int, to as int),
            bytes@.len() == (i - from) / 2,
            forall|j: int| 0 <= j < i - from ==> (#[trigger] value_of(part[j])) is Some,
            forall|k: int|
                0 <= k < bytes@.len() ==> bytes@[k] == (value_of(part[2 * k])->0 * 16 + value_of(
                    part[2 * k + 1],
                )->0) as u8,
        decreases to - i,
    {
        let high = digit_value(text[i]);
        let low = digit_value(text[i + 1]);
        assert(part[i - from] == text@[i as int]);
        assert(part[i - from + 1] == text@[i + 1]);
        match (high, low) {
            (Some(h), Some(l)) => {
                bytes.push(h * 16 + l);
            },
            _ => {
                assert(!is_hex(part));
                return None;
            },
        }
        i += 2;
    }
    assert(is_hex(part));
    assert(bytes@ =~= hex_bytes(part)->0);
    Some(bytes)
}

} // verus!
