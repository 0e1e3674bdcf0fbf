use vstd::prelude::*;
use crate::bytes::le32;

verus! {

/// Size of `sysfile.dat`.
pub const SYSFILE_SIZE: usize = 0x6000;
/// Size of one settings block.
pub const BLOCK_SIZE: usize = 512;
pub const CREDIT_PRIMARY: usize = 0x0000;
pub const CREDIT_MIRROR: usize = 0x3000;
pub const DIP_PRIMARY: usize = 0x2800;
pub const DIP_MIRROR: usize = 0x5800;
/// Offset of the free-play flag in the credit block.
pub const CREDIT_FREEPLAY_OFFSET: usize = 10;
/// Offset of the DIP switch byte in the DIP block.
pub const DIP_SWITCH_OFFSET: usize = 8;

/// The reflected CRC-32 polynomial.
pub const CRC32_POLY: u32 = 0xEDB8_8320;

/// One bit step of the reflected CRC-32.
pub open spec fn crc_step(c: u32) -> u32 {
    if c & 1 != 0 { (c >> 1u32) ^ CRC32_POLY } else { c >> 1u32 }
}

/// `n` bit steps.
pub open spec fn crc_steps(c: u32, n: nat) -> u32
    decreases n,
{
    if n == 0 { c } else { crc_steps(crc_step(c), (n - 1) as nat) }
}

/// The running CRC register after `data`.
pub open spec fn crc_update(c: u32, data: Seq<u8>) -> u32
    decreases data.len(),
{
    if data.len() == 0 {
        c
    } else {
        crc_steps(crc_update(c, data.drop_last()) ^ (data.last() as u32), 8)
    }
}

/// CRC-32 (IEEE, reflected, initial and final value all ones) of `data`.
pub open spec fn crc32_spec(data: Seq<u8>) -> u32 {
    !crc_update(!0u32, data)
}

/// CRC-32 (IEEE) of `data`, the checksum `sysfile.dat` blocks carry.
pub fn crc32(data: &[u8]) -> (crc: u32)
    ensures
        crc == crc32_spec(data@),
{
    let mut crc: u32 = !0u32;
    let mut i: usize = 0;
    while i < data.len()
        invariant
            i <= data@.len(),
            crc == crc_update(!0u32, data@.take(i as int)),
        decreases data@.len() - i,
    {
        proof {
            assert(data@.take(i + 1).drop_last() =~= data@.take(i as int));
        }
        crc = crc ^ (data[i] as u32);
        let ghost start = crc;
        let mut k: u32 = 0;
        while k < 8
            invariant
                k <= 8,
                crc_steps(start, 8) == crc_steps(crc, (8 - k) as nat),
            decreases 8 - k,
        {
            crc = if crc & 1 != 0 { (crc >> 1u32) ^ CRC32_POLY } else { crc >> 1u32 };
            k = k + 1;
        }
        i = i + 1;
    }
    assert(data@.take(data@.len() as int) =~= data@);
    !crc
}

/// A block with its first four bytes replaced by the little-endian CRC-32
/// of the rest.
pub open spec fn checksummed(block: Seq<u8>) -> Seq<u8> {
    le32(crc32_spec(block.skip(4))) + block.skip(4)
}

/// Stores the CRC-32 of `block[4..]` in `block[..4]`, little endian.
pub fn update_checksum(block: &mut Vec<u8>)
    requires
        old(block)@.len() >= 4,
    ensures
        final(block)@ == checksummed(old(block)@),
{
    let (_, rest) = block.as_slice().split_at(4);
    let c = crc32(rest);
    block.set(0, (c % 256) as u8);
    block.set(1, ((c / 256) % 256) as u8);
    block.set(2, ((c / 65536) % 256) as u8);
    block.set(3, (c / 16777216) as u8);
    assert(block@ =~= checksummed(old(block)@));
}

/// The DIP switch byte: switch `i` at bit `i`.
pub open spec fn dipsw_bits_spec(switches: [bool; 3]) -> u8 {
    ((if switches@[0] { 1int } else { 0 }) + (if switches@[1] { 2int } else { 0 }) + (if switches@[2] {
        4int
    } else {
        0
    })) as u8
}

/// Packs the three DIP switches into a byte, switch `i` at bit `i`.
pub fn dipsw_bits(switches: [bool; 3]) -> (bits: u8)
    ensures
        bits == dipsw_bits_spec(switches),
{
    (if switches[0] { 1u8 } else { 0 }) + (if switches[1] { 2u8 } else { 0 }) + (if switches[2] { 4u8 } else { 0 })
}

/// `s` with `block` written at `off`.
pub open spec fn splice(s: Seq<u8>, off: int, block: Seq<u8>) -> Seq<u8> {
    s.subrange(0, off) + block + s.subrange(off + block.len(), s.len() as int)
}

/// The credit block with the free-play flag set as asked, checksummed.
pub open spec fn credit_block(data: Seq<u8>, freeplay: bool) -> Seq<u8> {
    checksummed(
        data.subrange(CREDIT_PRIMARY as int, CREDIT_PRIMARY + BLOCK_SIZE).update(
            CREDIT_FREEPLAY_OFFSET as int,
            if freeplay { 1u8 } else { 0u8 },
        ),
    )
}

/// The DIP block with the switch byte set, checksummed.
pub open spec fn dip_block(data: Seq<u8>, dip: u8) -> Seq<u8> {
    checksummed(data.subrange(DIP_PRIMARY as int, DIP_PRIMARY + BLOCK_SIZE).update(DIP_SWITCH_OFFSET as int, dip))
}

/// `sysfile.dat` after the update: the primary credit block, with the
/// free-play flag, is written to both credit copies, and the primary DIP block,
/// with the switch byte, to both DIP copies.
pub open spec fn sysfile_update_spec(data: Seq<u8>, freeplay: bool, dip: u8) -> Seq<u8> {
    let c = credit_block(data, freeplay);
    let d = dip_block(data, dip);
    splice(
        splice(splice(splice(data, CREDIT_PRIMARY as int, c), CREDIT_MIRROR as int, c), DIP_PRIMARY as int, d),
        DIP_MIRROR as int,
        d,
    )
}

fn copy_block(data: &Vec<u8>, start: usize) -> (out: Vec<u8>)
    requires
        start + BLOCK_SIZE <= data@.len(),
    ensures
        out@ == data@.subrange(start as int, start + BLOCK_SIZE),
{
    let mut out: Vec<u8> = Vec::new();
    let mut i: usize = 0;
    let n = data.len();
    while i < BLOCK_SIZE
        invariant
            i <= BLOCK_SIZE,
            n == data@.len(),
            start + BLOCK_SIZE <= data@.len(),
            out@ == data@.subrange(start as int, start + i),
        decreases BLOCK_SIZE - i,
    {
        out.push(data[start + i]);
        i = i + 1;
        assert(out@ =~= data@.subrange(start as int, start + i));
    }
    out
}

fn write_block(data: &mut Vec<u8>, start: usize, block: &Vec<u8>)
    requires
        start + block@.len() <= old(data)@.len(),
    ensures
        final(data)@ == splice(old(data)@, start as int, block@),
{
    let mut i: usize = 0;
    let n = data.len();
    while i < block.len()
        invariant
            i <= block@.len(),
            n == data@.len(),
            start + block@.len() <= data@.len(),
            data@.len() == old(data)@.len(),
            forall|k: int| 0 <= k < start ==> data@[k] == old(data)@[k],
            forall|k: int| start + i <= k < data@.len() ==> data@[k] == old(data)@[k],
            forall|k: int| 0 <= k < i ==> data@[start + k] == block@[k],
        decreases block@.len() - i,
    {
        data.set(start + i, block[i]);
        i = i + 1;
    }
    assert(data@ =~= splice(old(data)@, start as int, block@));
}

/// Writes the free-play flag and the DIP switches into `sysfile.dat` (see
/// `sysfile_update_spec`); a file of another size is left alone and `false`
/// comes back.
pub fn update_sysfile(data: &mut Vec<u8>, freeplay: bool, dip: u8) -> (ok: bool)
    ensures
        ok == (old(data)@.len() == SYSFILE_SIZE),
        ok ==> final(data)@ == sysfile_update_spec(old(data)@, freeplay, dip),
        !ok ==> final(data)@ == old(data)@,
{
    if data.len() != SYSFILE_SIZE {
        return false;
    }
    let mut credit = copy_block(data, CREDIT_PRIMARY);
    let mut dipb = copy_block(data, DIP_PRIMARY);
    credit.set(CREDIT_FREEPLAY_OFFSET, if freeplay { 1 } else { 0 });
    dipb.set(DIP_SWITCH_OFFSET, dip);
    update_checksum(&mut credit);
    update_checksum(&mut dipb);
    proof {
        assert(credit@ == credit_block(old(data)@, freeplay));
        assert(dipb@ == dip_block(old(data)@, dip));
        lemma_checksummed_len(old(data)@.subrange(0, 512).update(10, if freeplay { 1u8 } else { 0u8 }));
        lemma_checksummed_len(old(data)@.subrange(0x2800, 0x2A00).update(8, dip));
    }
    write_block(data, CREDIT_PRIMARY, &credit);
    write_block(data, CREDIT_MIRROR, &credit);
    write_block(data, DIP_PRIMARY, &dipb);
    write_block(data, DIP_MIRROR, &dipb);
    true
}

proof fn lemma_checksummed_len(block: Seq<u8>)
    requires
        block.len() >= 4,
    ensures
        checksummed(block).len() == block.len(),
{
}

} // verus!
