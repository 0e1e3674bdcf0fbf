use vstd::prelude::*;

verus! {

/// The UTF-16 code units of one character.
pub open spec fn char_units(c: char) -> Seq<u16> {
    let v = c as u32;
    if v < 0x10000 {
        seq![v as u16]
    } else {
        let w = (v - 0x10000) as u32;
        seq![(0xD800 + w / 0x400) as u16, (0xDC00 + w % 0x400) as u16]
    }
}

/// The UTF-16 encoding of a character sequence.
pub open spec fn utf16_units(cs: Seq<char>) -> Seq<u16>
    decreases cs.len(),
{
    if cs.len() == 0 {
        Seq::empty()
    } else {
        utf16_units(cs.drop_last()) + char_units(cs.last())
    }
}

/// The UTF-16 encoding of `s`.
pub fn encode_utf16(s: &str) -> (out: Vec<u16>)
    ensures
        out@ == utf16_units(s@),
{
    let mut out: Vec<u16> = Vec::new();
    for c in it: s.chars()
        invariant
            it.seq() == s@,
            out@ == utf16_units(it.seq().take(it.index() as int)),
            it.seq().take(it.seq().len() as int) == it.seq(),
    {
        proof {
            let done = it.seq().take(it.index() as int);
            assert(it.seq().take(it.index() + 1).drop_last() =~= done);
        }
        let v = c as u32;
        if v < 0x10000 {
            out.push(v as u16);
        } else {
            let w = v - 0x10000;
            out.push((0xD800 + w / 0x400) as u16);
            out.push((0xDC00 + w % 0x400) as u16);
        }
        proof {
            let next = it.seq().take(it.index() + 1);
            assert(next.last() == c);
            assert(utf16_units(next) == utf16_units(next.drop_last()) + char_units(c));
        }
    }
    out
}

/// UTF-16 code units as little-endian bytes.
pub open spec fn utf16_le_bytes(units: Seq<u16>) -> Seq<u8> {
    Seq::new(2 * units.len(), |i: int| if i % 2 == 0 { (units[i / 2] % 256) as u8 } else { (units[i / 2] / 256) as u8 })
}

/// Code units as little-endian bytes.
pub fn units_to_le_bytes(units: &[u16]) -> (out: Vec<u8>)
    ensures
        out@ == utf16_le_bytes(units@),
{
    let n = units.len();
    let mut out: Vec<u8> = Vec::new();
    let mut k: usize = 0;
    while k < n
        invariant
            n == units@.len(),
            k <= n,
            out@.len() == 2 * k,
            forall|i: int| 0 <= i < 2 * k ==> #[trigger] out@[i] == (if i % 2 == 0 {
                (units@[i / 2] % 256) as u8
            } else {
                (units@[i / 2] / 256) as u8
            }),
        decreases n - k,
    {
        let u = units[k];
        out.push((u % 256) as u8);
        out.push((u / 256) as u8);
        k = k + 1;
    }
    assert(out@ =~= utf16_le_bytes(units@));
    out
}

} // verus!
