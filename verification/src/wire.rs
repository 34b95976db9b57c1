//! Little-endian integers and UTF-16LE text, as SMB2 puts them on the wire.

use vstd::prelude::*;

verus! {

/// The two bytes of `x`, least significant first.
pub open spec fn le16(x: u16) -> Seq<u8> {
    seq![(x % 256) as u8, (x / 256) as u8]
}

/// The four bytes of `x`, least significant first.
pub open spec fn le32(x: u32) -> Seq<u8> {
    le16((x % 0x1_0000) as u16) + le16((x / 0x1_0000) as u16)
}

/// The eight bytes of `x`, least significant first.
pub open spec fn le64(x: u64) -> Seq<u8> {
    le32((x % 0x1_0000_0000) as u32) + le32((x / 0x1_0000_0000) as u32)
}

/// The 16-bit integer at offset `i` of `s`.
pub open spec fn le16_at(s: Seq<u8>, i: int) -> u16 {
    (s[i] + 0x100 * s[i + 1]) as u16
}

/// The 32-bit integer at offset `i` of `s`.
pub open spec fn le32_at(s: Seq<u8>, i: int) -> u32 {
    (le16_at(s, i) + 0x1_0000 * le16_at(s, i + 2)) as u32
}

/// The 64-bit integer at offset `i` of `s`.
pub open spec fn le64_at(s: Seq<u8>, i: int) -> u64 {
    (le32_at(s, i) + 0x1_0000_0000 * le32_at(s, i + 4)) as u64
}

/// Reading a 16-bit integer gives back what was written.
pub proof fn le16_reads_back(x: u16, s: Seq<u8>, i: int)
    requires
        0 <= i,
        i + 2 <= s.len(),
        s.subrange(i, i + 2) == le16(x),
    ensures
        le16_at(s, i) == x,
{
    let part = s.subrange(i, i + 2);
    assert(part[0] == s[i] && part[1] == s[i + 1]);
    assert(le16(x)[0] == (x % 256) as u8 && le16(x)[1] == (x / 256) as u8);
}

/// Reading a 32-bit integer gives back what was written.
pub proof fn le32_reads_back(x: u32, s: Seq<u8>, i: int)
    requires
        0 <= i,
        i + 4 <= s.len(),
        s.subrange(i, i + 4) == le32(x),
    ensures
        le32_at(s, i) == x,
{
    let low = (x % 0x1_0000) as u16;
    let high = (x / 0x1_0000) as u16;
    assert(s.subrange(i, i + 2) =~= s.subrange(i, i + 4).subrange(0, 2));
    assert(s.subrange(i + 2, i + 4) =~= s.subrange(i, i + 4).subrange(2, 4));
    assert(le32(x).subrange(0, 2) =~= le16(low));
    assert(le32(x).subrange(2, 4) =~= le16(high));
    le16_reads_back(low, s, i);
    le16_reads_back(high, s, i + 2);
}

/// Reading a 64-bit integer gives back what was written.
pub proof fn le64_reads_back(x: u64, s: Seq<u8>, i: int)
    requires
        0 <= i,
        i + 8 <= s.len(),
        s.subrange(i, i + 8) == le64(x),
    ensures
        le64_at(s, i) == x,
{
    let low = (x % 0x1_0000_0000) as u32;
    let high = (x / 0x1_0000_0000) as u32;
    assert(s.subrange(i, i + 4) =~= s.subrange(i, i + 8).subrange(0, 4));
    assert(s.subrange(i + 4, i + 8) =~= s.subrange(i, i + 8).subrange(4, 8));
    assert(le64(x).subrange(0, 4) =~= le32(low));
    assert(le64(x).subrange(4, 8) =~= le32(high));
    le32_reads_back(low, s, i);
    le32_reads_back(high, s, i + 4);
}

/// Appends `x` in two bytes.
pub fn push_u16(out: &mut Vec<u8>, x: u16)
    ensures
        final(out)@ == old(out)@ + le16(x),
{
    out.push((x % 256) as u8);
    out.push((x / 256) as u8);
}

/// Appends `x` in four bytes.
pub fn push_u32(out: &mut Vec<u8>, x: u32)
    ensures
        final(out)@ == old(out)@ + le32(x),
{
    push_u16(out, (x % 0x1_0000) as u16);
    push_u16(out, (x / 0x1_0000) as u16);
}

/// Appends `x` in eight bytes.
pub fn push_u64(out: &mut Vec<u8>, x: u64)
    ensures
        final(out)@ == old(out)@ + le64(x),
{
    push_u32(out, (x % 0x1_0000_0000) as u32);
    push_u32(out, (x / 0x1_0000_0000) as u32);
}

/// Reads the 16-bit integer at offset `i`.
pub fn read_u16(bytes: &[u8], i: usize) -> (x: u16)
    requires
        i + 2 <= bytes@.len(),
    ensures
        x == le16_at(bytes@, i as int),
{
    bytes[i] as u16 + 0x100 * bytes[i + 1] as u16
}

/// Reads the 32-bit integer at offset `i`.
pub fn read_u32(bytes: &[u8], i: usize) -> (x: u32)
    requires
        i + 4 <= bytes@.len(),
    ensures
        x == le32_at(bytes@, i as int),
{
    assert(i < bytes.len());
    read_u16(bytes, i) as u32 + 0x1_0000 * read_u16(bytes, i + 2) as u32
}

/// Reads the 64-bit integer at offset `i`.
pub fn read_u64(bytes: &[u8], i: usize) -> (x: u64)
    requires
        i + 8 <= bytes@.len(),
    ensures
        x == le64_at(bytes@, i as int),
{
    assert(i < bytes.len());
    read_u32(bytes, i) as u64 + 0x1_0000_0000 * read_u32(bytes, i + 4) as u64
}

/// The UTF-16 code units of one character: one unit, or a surrogate pair.
pub open spec fn utf16_units(c: char) -> Seq<u16> {
    let v = c as int;
    if v < 0x1_0000 {
        seq![v as u16]
    } else {
        seq![(0xD800 + (v - 0x1_0000) / 0x400) as u16, (0xDC00 + (v - 0x1_0000) % 0x400) as u16]
    }
}

/// The bytes of one character in UTF-16LE.
pub open spec fn utf16le_char(c: char) -> Seq<u8> {
    let units = utf16_units(c);
    if units.len() == 1 {
        le16(units[0])
    } else {
        le16(units[0]) + le16(units[1])
    }
}

/// The bytes of `text` in UTF-16LE.
pub open spec fn utf16le(text: Seq<char>) -> Seq<u8>
    decreases text.len(),
{
    if text.len() == 0 {
        Seq::empty()
    } else {
        utf16le(text.drop_last()) + utf16le_char(text.last())
    }
}

/// UTF-16LE encodes text piece by piece.
pub proof fn utf16le_of_concatenation(a: Seq<char>, b: Seq<char>)
    ensures
        utf16le(a + b) == utf16le(a) + utf16le(b),
    decreases b.len(),
{
    if b.len() == 0 {
        assert(a + b =~= a);
        assert(utf16le(a) + utf16le(b) =~= utf16le(a));
    } else {
        assert((a + b).drop_last() =~= a + b.drop_last());
        utf16le_of_concatenation(a, b.drop_last());
        assert(utf16le(a + b) =~= utf16le(a) + utf16le(b));
    }
}

/// ASCII text takes two bytes a character.
pub proof fn ascii_takes_two_bytes(text: Seq<char>)
    requires
        forall|i: int| 0 <= i < text.len() ==> (#[trigger] text[i]) as int <= 0x7F,
    ensures
        utf16le(text).len() == 2 * text.len(),
    decreases text.len(),
{
    if text.len() > 0 {
        ascii_takes_two_bytes(text.drop_last());
        assert(text.last() as int <= 0x7F);
    }
}

/// Appends one character in UTF-16LE.
pub fn push_utf16_char(out: &mut Vec<u8>, c: char)
    ensures
        final(out)@ == old(out)@ + utf16le_char(c),
{
    let v: u32 = c as u32;
    if v < 0x1_0000 {
        push_u16(out, v as u16);
    } else {
        push_u16(out, (0xD800 + (v - 0x1_0000) / 0x400) as u16);
        push_u16(out, (0xDC00 + (v - 0x1_0000) % 0x400) as u16);
    }
}

/// Appends `text` in UTF-16LE.
pub fn push_utf16(out: &mut Vec<u8>, text: &str)
    ensures
        final(out)@ == old(out)@ + utf16le(text@),
{
    let ghost start = out@;
    for c in it: text.chars()
        invariant
            it.seq() == text@,
            out@ == start + utf16le(text@.take(it.index())),
    {
        let ghost before = text@.take(it.index());
        let ghost after = text@.take(it.index() + 1);
        assert(after.drop_last() =~= before && after.last() == c);
        push_utf16_char(out, c);
        assert(out@ =~= start + (utf16le(before) + utf16le_char(c)));
    }
    assert(text@.take(text@.len() as int) =~= text@);
}

/// An integer is written least significant byte first: byte `i` of it counts
/// 256 to the power of `i`.
pub proof fn law_written_integers_are_little_endian(x: u16, y: u32, z: u64)
    ensures
        le16(x).len() == 2,
        x == le16(x)[0] + 0x100 * le16(x)[1],
        le32(y).len() == 4,
        y == le32(y)[0] + 0x100 * le32(y)[1] + 0x1_0000 * le32(y)[2] + 0x100_0000 * le32(y)[3],
        le64(z).len() == 8,
        z == le64(z)[0] + 0x100 * le64(z)[1] + 0x1_0000 * le64(z)[2] + 0x100_0000 * le64(z)[3]
            + 0x1_0000_0000 * le64(z)[4] + 0x100_0000_0000 * le64(z)[5] + 0x1_0000_0000_0000
            * le64(z)[6] + 0x100_0000_0000_0000 * le64(z)[7],
{
    assert(le32(y).subrange(0, 4) =~= le32(y));
    le32_reads_back(y, le32(y), 0);
    law_integers_in_bytes_are_little_endian(le32(y), 0);
    assert(le64(z).subrange(0, 8) =~= le64(z));
    le64_reads_back(z, le64(z), 0);
    law_integers_in_bytes_are_little_endian(le64(z), 0);
}

/// An integer is read least significant byte first: byte `k` of it counts 256
/// to the power of `k`.
pub proof fn law_integers_in_bytes_are_little_endian(s: Seq<u8>, i: int)
    ensures
        le16_at(s, i) == s[i] + 0x100 * s[i + 1],
        le32_at(s, i) == s[i] + 0x100 * s[i + 1] + 0x1_0000 * s[i + 2] + 0x100_0000 * s[i + 3],
        le64_at(s, i) == s[i] + 0x100 * s[i + 1] + 0x1_0000 * s[i + 2] + 0x100_0000 * s[i + 3]
            + 0x1_0000_0000 * s[i + 4] + 0x100_0000_0000 * s[i + 5] + 0x1_0000_0000_0000 * s[i + 6]
            + 0x100_0000_0000_0000 * s[i + 7],
{
}

/// The integers that are read are those in the bytes, wherever they stand.
pub proof fn law_reads_are_little_endian(bytes: &[u8], i: usize, x: u16, y: u32, z: u64)
    requires
        call_ensures(read_u16, (bytes, i), x),
        call_ensures(read_u32, (bytes, i), y),
        call_ensures(read_u64, (bytes, i), z),
    ensures
        x == bytes@[i as int] + 0x100 * bytes@[i + 1],
        y == x + 0x1_0000 * bytes@[i + 2] + 0x100_0000 * bytes@[i + 3],
        z == y + 0x1_0000_0000 * bytes@[i + 4] + 0x100_0000_0000 * bytes@[i + 5]
            + 0x1_0000_0000_0000 * bytes@[i + 6] + 0x100_0000_0000_0000 * bytes@[i + 7],
{
}

/// A character of the basic plane takes one unit, which is its code point. Any
/// other takes two: a high and a low surrogate that together give it back.
pub proof fn law_utf16_of_a_character(c: char)
    ensures
        ({
            let s = utf16le(seq![c]);
            let v = c as int;
            if v < 0x1_0000 {
                s.len() == 2 && v == s[0] + 0x100 * s[1]
            } else {
                let high = s[0] + 0x100 * s[1];
                let low = s[2] + 0x100 * s[3];
                &&& s.len() == 4
                &&& 0xD800 <= high < 0xDC00
                &&& 0xDC00 <= low < 0xE000
                &&& v == 0x1_0000 + 0x400 * (high - 0xD800) + (low - 0xDC00)
            }
        }),
{
    assert(seq![c].drop_last() =~= Seq::<char>::empty());
    reveal_with_fuel(utf16le, 2);
    assert(utf16le(seq![c]) =~= utf16le_char(c));
    let units = utf16_units(c);
    law_written_integers_are_little_endian(units[0], 0, 0);
    if units.len() > 1 {
        law_written_integers_are_little_endian(units[1], 0, 0);
    }
}

/// Text is encoded character by character, in order: the encoding of two texts
/// one after the other is that of the first and then that of the second, and
/// no text has no bytes.
pub proof fn law_utf16_keeps_the_order(a: Seq<char>, b: Seq<char>)
    ensures
        utf16le(Seq::empty()).len() == 0,
        utf16le(a + b) == utf16le(a) + utf16le(b),
{
    utf16le_of_concatenation(a, b);
}

/// Text of the basic plane stands in the bytes at two bytes a character.
pub proof fn law_utf16_of_plain_text(text: Seq<char>, i: int)
    requires
        forall|j: int| 0 <= j < text.len() ==> (#[trigger] text[j]) as int <= 0xFFFF,
        0 <= i < text.len(),
    ensures
        utf16le(text).len() == 2 * text.len(),
        utf16le(text)[2 * i] + 0x100 * utf16le(text)[2 * i + 1] == text[i] as int,
    decreases text.len(),
{
    let before = text.drop_last();
    if before.len() > 0 {
        law_utf16_of_plain_text(before, if i < before.len() { i } else { 0 });
    } else {
        assert(utf16le(before).len() == 0);
    }
    let c = text.last();
    assert(c as int <= 0xFFFF);
    law_utf16_of_a_character(c);
    law_utf16_keeps_the_order(before, seq![c]);
    assert(before + seq![c] =~= text);
    let n = utf16le(before).len() as int;
    assert(utf16le(text)[n] == utf16le(seq![c])[0]);
    assert(utf16le(text)[n + 1] == utf16le(seq![c])[1]);
    if i < before.len() {
        assert(before[i] == text[i]);
        assert(utf16le(text)[2 * i] == utf16le(before)[2 * i]);
        assert(utf16le(text)[2 * i + 1] == utf16le(before)[2 * i + 1]);
    } else {
        assert(2 * i == n);
    }
}

/// An integer in a part of some bytes is the one in the whole.
pub proof fn integers_in_part(s: Seq<u8>, from: int, to: int, i: int)
    requires
        0 <= from <= to <= s.len(),
        0 <= i,
    ensures
        from + i + 2 <= to ==> le16_at(s.subrange(from, to), i) == le16_at(s, from + i),
        from + i + 4 <= to ==> le32_at(s.subrange(from, to), i) == le32_at(s, from + i),
        from + i + 8 <= to ==> le64_at(s.subrange(from, to), i) == le64_at(s, from + i),
{
}

} // verus!
