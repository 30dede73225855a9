//! Nibbles and the character encoding.

use vstd::prelude::*;

verus! {

/// Half a byte as the controller latches it: four bits, most significant first.
#[derive(Clone, Copy, Debug, PartialEq, Eq)]
pub struct Nibble {
    pub b3: bool,
    pub b2: bool,
    pub b1: bool,
    pub b0: bool,
}

/// What one bit adds to a number, before scaling by its place.
pub open spec fn weight(bit: bool) -> int {
    if bit { 1 } else { 0 }
}

impl View for Nibble {
    type V = Seq<bool>;

    /// The four bits in the order the data lines carry them, index 0 being the
    /// most significant.
    open spec fn view(&self) -> Seq<bool> {
        seq![self.b3, self.b2, self.b1, self.b0]
    }
}

impl Nibble {
    /// The number that the four bits spell, from 0 to 15.
    pub open spec fn value(self) -> int {
        8 * weight(self.b3) + 4 * weight(self.b2) + 2 * weight(self.b1) + weight(self.b0)
    }

    /// The nibble that spells `v`, for `v` from 0 to 15.
    pub open spec fn of(v: int) -> Nibble {
        Nibble { b3: (v / 8) % 2 == 1, b2: (v / 4) % 2 == 1, b1: (v / 2) % 2 == 1, b0: v % 2 == 1 }
    }

    fn spell(v: u8) -> (r: Nibble)
        requires
            v < 16,
        ensures
            r == Nibble::of(v as int),
            r.value() == v,
    {
        Nibble { b3: (v / 8) % 2 == 1, b2: (v / 4) % 2 == 1, b1: (v / 2) % 2 == 1, b0: v % 2 == 1 }
    }

    /// The lower four bits of a byte.
    pub fn low_half(byte: u8) -> (r: Nibble)
        ensures
            r == Nibble::of(byte as int % 16),
            r.value() == byte % 16,
    {
        Nibble::spell(byte % 16)
    }

    /// The upper four bits of a byte.
    pub fn high_half(byte: u8) -> (r: Nibble)
        ensures
            r == Nibble::of(byte as int / 16),
            r.value() == byte / 16,
    {
        Nibble::spell(byte / 16)
    }

    /// Builds the nibble that spells `v`, or nothing where `v` needs more than
    /// four bits.
    pub fn from_value(v: u8) -> (r: Option<Nibble>)
        ensures
            r == if v < 16 { Some(Nibble::of(v as int)) } else { None::<Nibble> },
            v < 16 ==> r.unwrap().value() == v,
    {
        if v < 16 {
            Some(Nibble::spell(v))
        } else {
            None
        }
    }

    /// The number that the four bits spell.
    pub fn to_value(self) -> (v: u8)
        ensures
            v == self.value(),
            v < 16,
    {
        let b3: u8 = if self.b3 { 8 } else { 0 };
        let b2: u8 = if self.b2 { 4 } else { 0 };
        let b1: u8 = if self.b1 { 2 } else { 0 };
        let b0: u8 = if self.b0 { 1 } else { 0 };
        b3 + b2 + b1 + b0
    }
}

/// Whether `c` is a character of 7-bit ASCII.
pub open spec fn is_ascii(c: char) -> bool {
    (c as int) < 128
}

/// The two nibbles that stand for `c` on the bus, high half first, or nothing
/// where `c` lies outside 7-bit ASCII.
pub open spec fn encoding(c: char) -> Option<(Nibble, Nibble)> {
    if is_ascii(c) {
        Some((Nibble::of((c as int) / 16), Nibble::of((c as int) % 16)))
    } else {
        None
    }
}

/// Splits an ASCII character into its high and low nibble. A character outside
/// 7-bit ASCII has no encoding.
pub fn encode(c: char) -> (r: Option<(Nibble, Nibble)>)
    ensures
        r == encoding(c),
        is_ascii(c) ==> r.unwrap().0.value() * 16 + r.unwrap().1.value() == c as int,
        !is_ascii(c) ==> r is None,
{
    let code: u32 = c as u32;
    if code < 128 {
        let byte: u8 = code as u8;
        Some((Nibble::high_half(byte), Nibble::low_half(byte)))
    } else {
        None
    }
}

/// The byte that a high and a low nibble make when the high one is shifted into
/// the upper half.
pub open spec fn reassembly(high: Nibble, low: Nibble) -> u8 {
    ((high.value() as u8) << 4) | (low.value() as u8)
}

/// Joins two nibbles into the byte they were split from.
pub fn reassemble(high: Nibble, low: Nibble) -> (code: u8)
    ensures
        code == reassembly(high, low),
        code == high.value() * 16 + low.value(),
{
    let h: u8 = high.to_value();
    let l: u8 = low.to_value();
    assert(((h << 4) | l) == h * 16 + l) by (bit_vector)
        requires
            h < 16,
            l < 16,
    ;
    (h << 4) | l
}

/// A nibble built from a number below 16 spells that number.
pub proof fn lemma_of_value(v: int)
    requires
        0 <= v < 16,
    ensures
        Nibble::of(v).value() == v,
{
}

/// The two nibbles of an ASCII character spell its code, the high one counting
/// sixteenfold. A character outside 7-bit ASCII has no nibbles.
pub proof fn lemma_encoding_spells_code(c: char)
    ensures
        is_ascii(c) ==> (encoding(c) matches Some((high, low)) && high.value() * 16 + low.value()
            == c as int),
        !is_ascii(c) ==> encoding(c) is None,
{
    if is_ascii(c) {
        lemma_of_value((c as int) / 16);
        lemma_of_value((c as int) % 16);
    }
}

/// Encoding an ASCII character and joining the two halves again, the high one
/// shifted left by four and the low one or-ed in, gives back the character's code.
pub proof fn lemma_encode_round_trip(c: char)
    requires
        is_ascii(c),
    ensures
        encoding(c) matches Some((high, low)) && reassembly(high, low) == c as int,
{
    let (high, low) = encoding(c).unwrap();
    lemma_of_value((c as int) / 16);
    lemma_of_value((c as int) % 16);
    let h: u8 = high.value() as u8;
    let l: u8 = low.value() as u8;
    assert(((h << 4) | l) == h * 16 + l) by (bit_vector)
        requires
            h < 16,
            l < 16,
    ;
}

} // verus!
