use vstd::prelude::*;

verus! {

/// A byte buffer with a fill level (`nbytes`) and a read position (`pos`).
pub struct IoBuf {
    pub bytes: Vec<u8>,
    pub nbytes: usize,
    pub pos: usize,
}

/// The fill level stays within the buffer.
pub open spec fn iobuf_wf(b: IoBuf) -> bool {
    b.nbytes <= b.bytes@.len()
}

/// How many bytes a copy moves from `src` to `dest`: what `dest` has room for
/// (none when its fill level is past its storage), at most what `src` has
/// left to read.
pub open spec fn copy_len(dest: IoBuf, src: IoBuf) -> int {
    let room = if dest.nbytes <= dest.bytes@.len() { dest.bytes@.len() - dest.nbytes } else { 0 };
    let avail = if src.nbytes > src.pos { src.nbytes - src.pos } else { 0 };
    if room < avail { room } else { avail }
}

/// Whether the bytes a copy moves lie inside `src`'s storage.
pub open spec fn copy_in_bounds(dest: IoBuf, src: IoBuf) -> bool {
    src.pos + copy_len(dest, src) <= src.bytes@.len()
}

/// What a copy does: the moved bytes are written after `dest`'s fill level,
/// which grows by their count, and `src`'s read position moves past them.
pub open spec fn copy_ok(d0: IoBuf, s0: IoBuf, d1: IoBuf, s1: IoBuf, n: usize) -> bool {
    let len = copy_len(d0, s0);
    &&& n == len
    &&& d1.nbytes == d0.nbytes + len
    &&& d1.pos == d0.pos
    &&& s1.nbytes == s0.nbytes && s1.bytes@ == s0.bytes@
    &&& s1.pos == s0.pos + len
    &&& len > 0 ==> d1.bytes@ == d0.bytes@.subrange(0, d0.nbytes as int) + s0.bytes@.subrange(
        s0.pos as int,
        s0.pos + len,
    ) + d0.bytes@.subrange(d0.nbytes + len, d0.bytes@.len() as int)
    &&& len == 0 ==> d1.bytes@ == d0.bytes@
}

impl IoBuf {
    /// An empty buffer over `bytes`.
    pub fn new(bytes: Vec<u8>) -> (b: Self)
        ensures
            b.bytes@ == bytes@ && b.nbytes == 0 && b.pos == 0,
    {
        IoBuf { bytes, nbytes: 0, pos: 0 }
    }

    /// A buffer over `bytes` holding its first `nbytes` bytes (at most all).
    pub fn with_data(bytes: Vec<u8>, nbytes: usize) -> (b: Self)
        ensures
            b.bytes@ == bytes@,
            b.nbytes == (if nbytes < bytes@.len() { nbytes as int } else { bytes@.len() as int }),
            b.pos == 0,
    {
        let n = if nbytes < bytes.len() { nbytes } else { bytes.len() };
        IoBuf { bytes, nbytes: n, pos: 0 }
    }

    /// The size of the underlying storage.
    pub fn capacity(&self) -> (c: usize)
        ensures
            c == self.bytes@.len(),
    {
        self.bytes.len()
    }

    /// How many filled bytes are left to read.
    pub fn available(&self) -> (a: usize)
        ensures
            a == (if self.nbytes > self.pos { self.nbytes - self.pos } else { 0 }),
    {
        if self.nbytes > self.pos { self.nbytes - self.pos } else { 0 }
    }

    /// The filled bytes.
    pub fn as_slice(&self) -> (s: &[u8])
        requires
            iobuf_wf(*self),
        ensures
            s@ == self.bytes@.subrange(0, self.nbytes as int),
    {
        let (head, _) = self.bytes.as_slice().split_at(self.nbytes);
        head
    }

    /// The filled bytes, to change in place.
    pub fn as_mut_slice(&mut self) -> (s: &mut [u8])
        requires
            iobuf_wf(*old(self)),
        ensures
            s@ == old(self).bytes@.subrange(0, old(self).nbytes as int),
            final(self).nbytes == old(self).nbytes,
            final(self).pos == old(self).pos,
            final(self).bytes@ == final(s)@ + old(self).bytes@.subrange(old(self).nbytes as int, old(self).bytes@.len() as int),
    {
        let n = self.nbytes;
        let (head, _) = self.bytes.as_mut_slice().split_at_mut(n);
        head
    }
}

fn copy_available(dest: &mut IoBuf, src: &mut IoBuf) -> (n: usize)
    requires
        copy_len(*old(dest), *old(src)) == 0 || copy_in_bounds(*old(dest), *old(src)),
    ensures
        copy_ok(*old(dest), *old(src), *final(dest), *final(src), n),
        iobuf_wf(*old(dest)) ==> iobuf_wf(*final(dest)),
        iobuf_wf(*old(src)) ==> iobuf_wf(*final(src)),
{
    let cap = dest.bytes.len();
    let room = if dest.nbytes <= cap { cap - dest.nbytes } else { 0 };
    let avail = src.available();
    let len = if room < avail { room } else { avail };
    if len == 0 {
        return 0;
    }
    let slen = src.bytes.len();
    let dlen = dest.bytes.len();
    let ds = dest.nbytes;
    let ss = src.pos;
    let mut i: usize = 0;
    while i < len
        invariant
            i <= len,
            ds + len <= dest.bytes@.len(),
            ss + len <= src.bytes@.len(),
            slen == src.bytes@.len(),
            dlen == dest.bytes@.len(),
            dest.bytes@.len() == old(dest).bytes@.len(),
            dest.nbytes == old(dest).nbytes && dest.pos == old(dest).pos,
            ds == old(dest).nbytes,
            *src == *old(src),
            ss == old(src).pos,
            forall|k: int| 0 <= k < ds ==> dest.bytes@[k] == old(dest).bytes@[k],
            forall|k: int| ds + len <= k < dest.bytes@.len() ==> dest.bytes@[k] == old(dest).bytes@[k],
            forall|k: int| ds <= k < ds + i ==> #[trigger] dest.bytes@[k] == src.bytes@[ss + (k - ds)],
            forall|k: int| ds + i <= k < dest.bytes@.len() ==> dest.bytes@[k] == old(dest).bytes@[k],
        decreases len - i,
    {
        let b = src.bytes[ss + i];
        dest.bytes.set(ds + i, b);
        i = i + 1;
    }
    dest.nbytes = ds + len;
    src.pos = ss + len;
    assert(dest.bytes@ =~= old(dest).bytes@.subrange(0, ds as int) + old(src).bytes@.subrange(ss as int, ss + len)
        + old(dest).bytes@.subrange(ds + len, old(dest).bytes@.len() as int));
    len
}

/// Moves what `src` has left to read into `dest`, as far as `dest` has room;
/// returns the number of bytes moved. A destination filled past its storage
/// has no room, and nothing moves.
pub fn iobuf_read(dest: &mut IoBuf, src: &mut IoBuf) -> (n: usize)
    requires
        copy_len(*old(dest), *old(src)) == 0 || copy_in_bounds(*old(dest), *old(src)),
    ensures
        copy_ok(*old(dest), *old(src), *final(dest), *final(src), n),
        iobuf_wf(*old(dest)) ==> iobuf_wf(*final(dest)),
        iobuf_wf(*old(src)) ==> iobuf_wf(*final(src)),
{
    copy_available(dest, src)
}

/// Moves what `src` has left to read into `dest`, as far as `dest` has room;
/// returns the number of bytes moved. A destination filled past its storage
/// has no room, and nothing moves.
pub fn iobuf_write(dest: &mut IoBuf, src: &mut IoBuf) -> (n: usize)
    requires
        copy_len(*old(dest), *old(src)) == 0 || copy_in_bounds(*old(dest), *old(src)),
    ensures
        copy_ok(*old(dest), *old(src), *final(dest), *final(src), n),
        iobuf_wf(*old(dest)) ==> iobuf_wf(*final(dest)),
        iobuf_wf(*old(src)) ==> iobuf_wf(*final(src)),
{
    copy_available(dest, src)
}

} // verus!
