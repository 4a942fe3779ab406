//! Scalar kinds that a stored value may hold besides the primitive ones:
//! floating-point numbers by bit pattern, byte strings, and integers of
//! arbitrary size.

use vstd::prelude::*;
use vstd::string::*;

verus! {

/// A 32-bit IEEE 754 number, kept as its bit pattern.
///
/// The library only carries such a number from a filter to the parameter of
/// a predicate; it never computes with it.
#[derive(Clone, Copy, Debug, PartialEq, Eq, Structural)]
pub struct Float {
    pub bits: u32,
}

impl View for Float {
    type V = u32;

    open spec fn view(&self) -> u32 {
        self.bits
    }
}

impl Float {
    /// The number with the given bit pattern.
    pub fn from_bits(bits: u32) -> (f: Float)
        ensures
            f@ == bits,
    {
        Float { bits }
    }

    /// The bit pattern of the number.
    pub fn to_bits(&self) -> (bits: u32)
        ensures
            bits == self@,
    {
        self.bits
    }
}

/// The lower-case hexadecimal digit for a value below sixteen.
pub open spec fn hex_char(nibble: int) -> char {
    if nibble == 0 {
        '0'
    } else if nibble == 1 {
        '1'
    } else if nibble == 2 {
        '2'
    } else if nibble == 3 {
        '3'
    } else if nibble == 4 {
        '4'
    } else if nibble == 5 {
        '5'
    } else if nibble == 6 {
        '6'
    } else if nibble == 7 {
        '7'
    } else if nibble == 8 {
        '8'
    } else if nibble == 9 {
        '9'
    } else if nibble == 10 {
        'a'
    } else if nibble == 11 {
        'b'
    } else if nibble == 12 {
        'c'
    } else if nibble == 13 {
        'd'
    } else if nibble == 14 {
        'e'
    } else {
        'f'
    }
}

/// Two hexadecimal digits per byte, the high half first.
pub open spec fn hex_digits(bytes: Seq<u8>) -> Seq<char> {
    Seq::new(
        2 * bytes.len(),
        |i: int|
            if i % 2 == 0 {
                hex_char(bytes[i / 2] as int / 16)
            } else {
                hex_char(bytes[i / 2] as int % 16)
            },
    )
}

/// The text form of a byte string: `0x` and then its hexadecimal digits.
pub open spec fn hex_text(bytes: Seq<u8>) -> Seq<char> {
    seq!['0', 'x'] + hex_digits(bytes)
}

fn hex_str(nibble: u8) -> (digit: &'static str)
    requires
        nibble < 16,
    ensures
        digit@ == seq![hex_char(nibble as int)],
{
    proof {
        reveal_strlit("0");
        reveal_strlit("1");
        reveal_strlit("2");
        reveal_strlit("3");
        reveal_strlit("4");
        reveal_strlit("5");
        reveal_strlit("6");
        reveal_strlit("7");
        reveal_strlit("8");
        reveal_strlit("9");
        reveal_strlit("a");
        reveal_strlit("b");
        reveal_strlit("c");
        reveal_strlit("d");
        reveal_strlit("e");
        reveal_strlit("f");
    }
    let digit = match nibble {
        0 => "0",
        1 => "1",
        2 => "2",
        3 => "3",
        4 => "4",
        5 => "5",
        6 => "6",
        7 => "7",
        8 => "8",
        9 => "9",
        10 => "a",
        11 => "b",
        12 => "c",
        13 => "d",
        14 => "e",
        _ => "f",
    };
    assert(digit@ =~= seq![hex_char(nibble as int)]);
    digit
}

/// A byte string of any length.
#[derive(Debug, PartialEq, Eq)]
pub struct Bytes {
    pub bytes: Vec<u8>,
}

impl Clone for Bytes {
    fn clone(&self) -> (copy: Bytes)
        ensures
            copy@ == self@,
    {
        Bytes { bytes: self.bytes.clone() }
    }
}

impl View for Bytes {
    type V = Seq<u8>;

    open spec fn view(&self) -> Seq<u8> {
        self.bytes@
    }
}

impl Bytes {
    /// The byte string that holds `bytes`.
    pub fn new(bytes: Vec<u8>) -> (b: Bytes)
        ensures
            b@ == bytes@,
    {
        Bytes { bytes }
    }

    /// The text form: `0x` followed by two lower-case hexadecimal digits for
    /// each byte.
    pub fn to_string(&self) -> (text: String)
        ensures
            text@ == hex_text(self@),
    {
        let mut text = "0x".to_owned();
        proof {
            reveal_strlit("0x");
            assert(text@ =~= seq!['0', 'x'] + hex_digits(self@.take(0)));
        }
        let mut i: usize = 0;
        while i < self.bytes.len()
            invariant
                i <= self.bytes.len(),
                text@ == seq!['0', 'x'] + hex_digits(self@.take(i as int)),
            decreases self.bytes.len() - i,
        {
            let byte = self.bytes[i];
            let high = hex_str(byte / 16);
            let low = hex_str(byte % 16);
            text.append(high);
            text.append(low);
            proof {
                let before = self@.take(i as int);
                let after = self@.take(i + 1);
                assert(hex_digits(after) =~= hex_digits(before) + seq![
                    hex_char(byte as int / 16),
                    hex_char(byte as int % 16),
                ]);
            }
            i += 1;
        }
        proof {
            assert(self@.take(i as int) =~= self@);
        }
        text
    }
}

/// Whether `c` is one of the ten decimal digits.
pub open spec fn is_digit(c: char) -> bool {
    '0' <= c && c <= '9'
}

/// The number that a run of decimal digits denotes; 0 for the empty run.
pub open spec fn digits_value(digits: Seq<char>) -> nat
    decreases digits.len(),
{
    if digits.len() == 0 {
        0
    } else {
        (digits_value(digits.drop_last()) * 10 + (digits.last() as int - '0' as int)) as nat
    }
}

/// Whether `text` is the one decimal spelling of an integer: digits with an
/// optional leading `-`, no leading zeros, and no `-0`.
pub open spec fn is_canonical_decimal(text: Seq<char>) -> bool {
    let start = if text.len() > 0 && text[0] == '-' {
        1int
    } else {
        0int
    };
    &&& text.len() > start
    &&& forall|i: int| start <= i < text.len() ==> is_digit(#[trigger] text[i])
    &&& (text[start] == '0' ==> text.len() == 1)
}

/// The integer that a decimal spelling denotes.
pub open spec fn decimal_value(text: Seq<char>) -> int {
    if text.len() > 0 && text[0] == '-' {
        -(digits_value(text.subrange(1, text.len() as int)) as int)
    } else {
        digits_value(text) as int
    }
}

/// Whether `digits` is a run of decimal digits that does not start with a
/// zero; the empty run is one.
pub open spec fn is_plain_digits(digits: Seq<char>) -> bool {
    &&& forall|i: int| 0 <= i < digits.len() ==> is_digit(#[trigger] digits[i])
    &&& (digits.len() > 0 ==> digits[0] != '0')
}

/// A run of digits that does not start with a zero denotes a positive
/// number, unless it is empty.
pub proof fn lemma_plain_digits_positive(digits: Seq<char>)
    requires
        is_plain_digits(digits),
        digits.len() > 0,
    ensures
        digits_value(digits) > 0,
    decreases digits.len(),
{
    assert(is_digit(digits.last()));
    if digits.len() > 1 {
        let front = digits.drop_last();
        assert forall|i: int| 0 <= i < front.len() implies is_digit(#[trigger] front[i]) by {
            assert(front[i] == digits[i]);
        }
        assert(front[0] == digits[0]);
        lemma_plain_digits_positive(front);
    } else {
        assert(digits.last() == digits[0]);
    }
}

/// Two runs of digits without a leading zero that denote the same number
/// are the same run.
pub proof fn lemma_plain_digits_unique(first: Seq<char>, second: Seq<char>)
    requires
        is_plain_digits(first),
        is_plain_digits(second),
        digits_value(first) == digits_value(second),
    ensures
        first == second,
    decreases first.len(),
{
    if first.len() == 0 || second.len() == 0 {
        if first.len() > 0 {
            lemma_plain_digits_positive(first);
        }
        if second.len() > 0 {
            lemma_plain_digits_positive(second);
        }
        assert(first =~= second);
    } else {
        let front_a = first.drop_last();
        let front_b = second.drop_last();
        assert(is_digit(first.last()));
        assert(is_digit(second.last()));
        assert forall|i: int| 0 <= i < front_a.len() implies is_digit(#[trigger] front_a[i]) by {
            assert(front_a[i] == first[i]);
        }
        assert forall|i: int| 0 <= i < front_b.len() implies is_digit(#[trigger] front_b[i]) by {
            assert(front_b[i] == second[i]);
        }
        if front_a.len() > 0 {
            assert(front_a[0] == first[0]);
        }
        if front_b.len() > 0 {
            assert(front_b[0] == second[0]);
        }
        let a = digits_value(front_a) as int;
        let b = digits_value(front_b) as int;
        let da = first.last() as int - '0' as int;
        let db = second.last() as int - '0' as int;
        assert(a * 10 + da == b * 10 + db);
        assert(a == b && da == db);
        lemma_plain_digits_unique(front_a, front_b);
        assert(first =~= front_a.push(first.last()));
        assert(second =~= front_b.push(second.last()));
    }
}

/// An integer has one canonical decimal spelling: two canonical spellings
/// of the same integer are the same text.
pub proof fn lemma_decimal_spelling_unique(first: Seq<char>, second: Seq<char>)
    requires
        is_canonical_decimal(first),
        is_canonical_decimal(second),
        decimal_value(first) == decimal_value(second),
    ensures
        first == second,
{
    lemma_sign_of_spelling(first);
    lemma_sign_of_spelling(second);
    if first[0] == '-' {
        let a = first.subrange(1, first.len() as int);
        let b = second.subrange(1, second.len() as int);
        lemma_plain_digits_unique(a, b);
        assert(first =~= seq!['-'] + a);
        assert(second =~= seq!['-'] + b);
    } else if first[0] == '0' {
        assert(first =~= second);
    } else {
        lemma_plain_digits_unique(first, second);
    }
}

/// A canonical spelling shows the sign of its integer: negative with a
/// `-`, zero as `0`, and positive otherwise; the digits behind a `-` and
/// the digits of a positive integer start with no zero.
proof fn lemma_sign_of_spelling(text: Seq<char>)
    requires
        is_canonical_decimal(text),
    ensures
        text[0] == '-' ==> decimal_value(text) < 0 && is_plain_digits(
            text.subrange(1, text.len() as int),
        ),
        text[0] == '0' ==> decimal_value(text) == 0 && text.len() == 1,
        text[0] != '-' && text[0] != '0' ==> decimal_value(text) > 0 && is_plain_digits(text),
{
    if text[0] == '-' {
        let digits = text.subrange(1, text.len() as int);
        assert forall|i: int| 0 <= i < digits.len() implies is_digit(#[trigger] digits[i]) by {
            assert(digits[i] == text[i + 1]);
        }
        assert(digits[0] == text[1]);
        lemma_plain_digits_positive(digits);
    } else if text[0] == '0' {
        assert(text.drop_last() =~= Seq::<char>::empty());
        assert(digits_value(text) == 0) by {
            reveal_with_fuel(digits_value, 2);
        }
    } else {
        lemma_plain_digits_positive(text);
    }
}

/// An integer of arbitrary size, such as a 256-bit quantity of a blockchain.
///
/// It is kept as its canonical decimal spelling, so that it reaches the
/// database digit for digit.
#[derive(Debug, PartialEq, Eq)]
pub struct BigInt {
    text: String,
}

impl Clone for BigInt {
    fn clone(&self) -> (copy: BigInt)
        ensures
            copy@ == self@,
    {
        proof {
            use_type_invariant(self);
        }
        BigInt { text: self.text.clone() }
    }
}

impl View for BigInt {
    type V = int;

    closed spec fn view(&self) -> int {
        decimal_value(self.text@)
    }
}

impl BigInt {
    #[verifier::type_invariant]
    spec fn canonical(self) -> bool {
        is_canonical_decimal(self.text@)
    }

    /// Reads an integer from its canonical decimal spelling, and nothing
    /// from any other text.
    pub fn parse(text: &str) -> (parsed: Option<BigInt>)
        ensures
            parsed is Some <==> is_canonical_decimal(text@),
            parsed matches Some(n) ==> n@ == decimal_value(text@),
    {
        let len = text.unicode_len();
        if len == 0 {
            return None;
        }
        let start: usize = if text.get_char(0) == '-' {
            1
        } else {
            0
        };
        if start == len {
            return None;
        }
        if text.get_char(start) == '0' && len != 1 {
            return None;
        }
        let mut i: usize = start;
        while i < len
            invariant
                start <= i <= len,
                len == text@.len(),
                start == if text@[0] == '-' { 1int } else { 0int },
                forall|j: int| start <= j < i ==> is_digit(#[trigger] text@[j]),
            decreases len - i,
        {
            let c = text.get_char(i);
            if !('0' <= c && c <= '9') {
                assert(!is_digit(text@[i as int]));
                return None;
            }
            i += 1;
        }
        Some(BigInt { text: text.to_owned() })
    }

    /// The canonical decimal spelling of the integer.
    pub fn to_string(&self) -> (text: String)
        ensures
            is_canonical_decimal(text@),
            decimal_value(text@) == self@,
    {
        proof {
            use_type_invariant(self);
        }
        self.text.clone()
    }
}

} // verus!
