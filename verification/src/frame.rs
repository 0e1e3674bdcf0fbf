use vstd::prelude::*;

verus! {

/// Sum of all bytes of `s`, as a natural number.
pub open spec fn byte_sum(s: Seq<u8>) -> nat
    decreases s.len(),
{
    if s.len() == 0 {
        0
    } else {
        byte_sum(s.drop_last()) + s.last() as nat
    }
}

/// The 8-bit wrapping sum of all bytes of `s`.
pub open spec fn checksum8(s: Seq<u8>) -> u8 {
    (byte_sum(s) % 256) as u8
}

/// How one raw byte goes on the wire: the sync and escape markers are sent as
/// the escape marker followed by the byte minus one; every other byte as is.
pub open spec fn escape_byte(b: u8, sync: u8, esc: u8) -> Seq<u8> {
    if b == sync || b == esc {
        seq![esc, (b - 1) as u8]
    } else {
        seq![b]
    }
}

/// The wire form of a run of raw bytes.
pub open spec fn escape_seq(s: Seq<u8>, sync: u8, esc: u8) -> Seq<u8>
    decreases s.len(),
{
    if s.len() == 0 {
        Seq::empty()
    } else {
        escape_seq(s.drop_last(), sync, esc) + escape_byte(s.last(), sync, esc)
    }
}

/// Markers that keep escaped bytes distinguishable from the markers themselves.
pub open spec fn markers_ok(sync: u8, esc: u8) -> bool {
    &&& sync != esc
    &&& sync > 0
    &&& esc > 0
    &&& (sync - 1) as u8 != sync
    &&& (sync - 1) as u8 != esc
    &&& (esc - 1) as u8 != sync
    &&& (esc - 1) as u8 != esc
}

pub proof fn lemma_byte_sum_push(s: Seq<u8>, b: u8)
    ensures
        byte_sum(s.push(b)) == byte_sum(s) + b as nat,
{
    assert(s.push(b).drop_last() =~= s);
}

pub proof fn lemma_escape_seq_append(a: Seq<u8>, b: Seq<u8>, sync: u8, esc: u8)
    ensures
        escape_seq(a + b, sync, esc) == escape_seq(a, sync, esc) + escape_seq(b, sync, esc),
    decreases b.len(),
{
    if b.len() == 0 {
        assert(a + b =~= a);
        assert(escape_seq(a, sync, esc) + escape_seq(b, sync, esc) =~= escape_seq(a, sync, esc));
    } else {
        lemma_escape_seq_append(a, b.drop_last(), sync, esc);
        assert((a + b).drop_last() =~= a + b.drop_last());
        assert((a + b).last() == b.last());
        assert(escape_seq(a, sync, esc) + escape_seq(b, sync, esc) =~= escape_seq(a, sync, esc)
            + escape_seq(b.drop_last(), sync, esc) + escape_byte(b.last(), sync, esc));
    }
}

pub proof fn lemma_escape_seq_push(a: Seq<u8>, b: u8, sync: u8, esc: u8)
    ensures
        escape_seq(a.push(b), sync, esc) == escape_seq(a, sync, esc) + escape_byte(b, sync, esc),
{
    assert(a.push(b).drop_last() =~= a);
}

/// No byte of an escaped run is the sync marker.
pub proof fn lemma_escape_seq_no_sync(s: Seq<u8>, sync: u8, esc: u8)
    requires
        markers_ok(sync, esc),
    ensures
        forall|i: int| 0 <= i < escape_seq(s, sync, esc).len() ==> escape_seq(s, sync, esc)[i] != sync,
    decreases s.len(),
{
    if s.len() > 0 {
        lemma_escape_seq_no_sync(s.drop_last(), sync, esc);
        let a = escape_seq(s.drop_last(), sync, esc);
        let b = escape_byte(s.last(), sync, esc);
        assert(escape_seq(s, sync, esc) == a + b);
        assert forall|i: int| 0 <= i < (a + b).len() implies (a + b)[i] != sync by {
            if i < a.len() {
                assert((a + b)[i] == a[i]);
            } else {
                assert((a + b)[i] == b[i - a.len()]);
            }
        }
    }
}

/// Wrapping 8-bit sum of a byte slice.
pub fn sum8(bytes: &[u8], start: usize, end: usize) -> (sum: u8)
    requires
        start <= end <= bytes@.len(),
    ensures
        sum == checksum8(bytes@.subrange(start as int, end as int)),
{
    let mut sum: u8 = 0;
    let mut i = start;
    while i < end
        invariant
            start <= i <= end <= bytes@.len(),
            sum == checksum8(bytes@.subrange(start as int, i as int)),
        decreases end - i,
    {
        proof {
            let s = bytes@.subrange(start as int, i as int);
            assert(bytes@.subrange(start as int, i + 1) =~= s.push(bytes@[i as int]));
            lemma_byte_sum_push(s, bytes@[i as int]);
        }
        sum = ((sum as u16 + bytes[i] as u16) % 256) as u8;
        i = i + 1;
    }
    sum
}

/// Appends the wire form of `raw` to `tx`.
pub fn push_escaped(tx: &mut Vec<u8>, raw: &[u8], sync: u8, esc: u8)
    requires
        markers_ok(sync, esc),
    ensures
        final(tx)@ == old(tx)@ + escape_seq(raw@, sync, esc),
{
    let mut i: usize = 0;
    while i < raw.len()
        invariant
            markers_ok(sync, esc),
            i <= raw@.len(),
            tx@ == old(tx)@ + escape_seq(raw@.subrange(0, i as int), sync, esc),
        decreases raw@.len() - i,
    {
        let byte = raw[i];
        proof {
            assert(raw@.subrange(0, i + 1) =~= raw@.subrange(0, i as int).push(byte));
            lemma_escape_seq_push(raw@.subrange(0, i as int), byte, sync, esc);
        }
        if byte == sync || byte == esc {
            tx.push(esc);
            tx.push(byte - 1);
        } else {
            tx.push(byte);
        }
        i = i + 1;
    }
    assert(raw@.subrange(0, raw@.len() as int) =~= raw@);
}

/// Copies `bytes` to the end of `dest`.
pub fn extend_bytes(dest: &mut Vec<u8>, bytes: &[u8])
    ensures
        final(dest)@ == old(dest)@ + bytes@,
{
    let mut i: usize = 0;
    while i < bytes.len()
        invariant
            i <= bytes@.len(),
            dest@ == old(dest)@ + bytes@.subrange(0, i as int),
        decreases bytes@.len() - i,
    {
        proof {
            assert(bytes@.subrange(0, i + 1) =~= bytes@.subrange(0, i as int).push(bytes@[i as int]));
        }
        dest.push(bytes[i]);
        i = i + 1;
    }
    assert(bytes@.subrange(0, bytes@.len() as int) =~= bytes@);
}


/// Whether two byte slices hold the same bytes.
pub fn bytes_eq(a: &[u8], b: &[u8]) -> (eq: bool)
    ensures
        eq == (a@ == b@),
{
    if a.len() != b.len() {
        return false;
    }
    let mut i: usize = 0;
    while i < a.len()
        invariant
            a@.len() == b@.len(),
            i <= a@.len(),
            forall|j: int| 0 <= j < i ==> a@[j] == b@[j],
        decreases a@.len() - i,
    {
        if a[i] != b[i] {
            return false;
        }
        i = i + 1;
    }
    assert(a@ =~= b@);
    true
}

} // verus!
