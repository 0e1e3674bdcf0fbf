use vstd::prelude::*;
use crate::frame::extend_bytes;
use crate::patch_engine::{find_tokens, first_token_match};

verus! {

pub const TYPE_HOLDPUNCH: u8 = 0;
pub const TYPE_REFLECTOR: u8 = 1;
pub const TYPE_TUNNEL: u8 = 2;
pub const TYPE_MUSIC: u8 = 4;

/// `{"isFinish":false}` with a terminating NUL, the reply the game gets in
/// place of a music intersection frame.
pub open spec fn isfinish_false() -> Seq<u8> {
    seq![123u8, 34, 105, 115, 70, 105, 110, 105, 115, 104, 34, 58, 102, 97, 108, 115, 101, 125, 0]
}

/// A relay frame: the packet type, the payload length as 16-bit little endian
/// (only its low 16 bits), and the payload.
pub open spec fn frame_spec(packet_type: u8, payload: Seq<u8>) -> Seq<u8> {
    seq![packet_type, (payload.len() % 256) as u8, ((payload.len() / 256) % 256) as u8] + payload
}

/// Builds a relay frame (see `frame_spec`).
pub fn build_frame(packet_type: u8, payload: &[u8]) -> (frame: Vec<u8>)
    ensures
        frame@ == frame_spec(packet_type, payload@),
{
    let len = payload.len();
    let mut frame: Vec<u8> = Vec::new();
    frame.push(packet_type);
    frame.push((len % 256) as u8);
    frame.push(((len / 256) % 256) as u8);
    extend_bytes(&mut frame, payload);
    frame
}

/// Whether an outgoing datagram is the hole-punch request, which starts with
/// `{"ro`.
pub open spec fn is_holdpunch_spec(payload: Seq<u8>) -> bool {
    payload.len() >= 4 && payload.take(4) == seq![123u8, 34, 114, 111]
}

/// The tunnel payload for a datagram to a peer: its IPv4 address, its port in
/// network order, and the datagram.
pub open spec fn tunnel_spec(ip: [u8; 4], port: u16, payload: Seq<u8>) -> Seq<u8> {
    ip@ + seq![(port / 256) as u8, (port % 256) as u8] + payload
}

/// Where the relay stands: the reflector's address, learned from the
/// hole-punch request, and whether the music list went out.
pub struct RelayState {
    pub reflector_addr: Option<[u8; 4]>,
    pub reflector_port: u16,
    pub music_sent: bool,
}

/// What to do with an outgoing datagram.
pub enum SendRoute {
    /// Send these frames to the reflector, in order, and report `reported`
    /// bytes as sent.
    Relay { frames: Vec<Vec<u8>>, reported: u32 },
    /// Hand the datagram to the original `WSASendTo`.
    Passthrough,
}

/// The frames of a relayed datagram, as byte sequences.
pub open spec fn frames_view(frames: Seq<Vec<u8>>) -> Seq<Seq<u8>> {
    frames.map_values(|f: Vec<u8>| f@)
}

/// What `route_send` does: the state afterwards and the frames to send
/// (`None` for a pass-through).
pub open spec fn route_send_spec(
    s: RelayState,
    payload: Seq<u8>,
    dest: Option<([u8; 4], u16)>,
    music: Seq<u8>,
) -> (RelayState, Option<Seq<Seq<u8>>>) {
    if is_holdpunch_spec(payload) {
        let s1 = match dest {
            Some((ip, port)) => RelayState { reflector_addr: Some(ip), reflector_port: port, ..s },
            None => s,
        };
        let hp = frame_spec(TYPE_HOLDPUNCH, payload);
        if s.music_sent {
            (s1, Some(seq![hp]))
        } else {
            (RelayState { music_sent: true, ..s1 }, Some(seq![hp, frame_spec(TYPE_MUSIC, music)]))
        }
    } else {
        match (dest, s.reflector_addr) {
            (Some((ip, port)), Some(refl)) => if ip@ == refl@ {
                (s, Some(seq![frame_spec(TYPE_REFLECTOR, payload)]))
            } else {
                (s, Some(seq![frame_spec(TYPE_TUNNEL, tunnel_spec(ip, port, payload))]))
            },
            _ => (s, None),
        }
    }
}

fn same_ip(a: [u8; 4], b: [u8; 4]) -> (eq: bool)
    ensures
        eq == (a@ == b@),
{
    let eq = a[0] == b[0] && a[1] == b[1] && a[2] == b[2] && a[3] == b[3];
    proof {
        if eq {
            assert(a@ =~= b@);
        }
    }
    eq
}

impl RelayState {
    /// No reflector known yet and no music list sent.
    pub fn new() -> (s: Self)
        ensures
            s.reflector_addr is None && s.reflector_port == 0 && !s.music_sent,
    {
        RelayState { reflector_addr: None, reflector_port: 0, music_sent: false }
    }

    /// Routes an outgoing datagram with payload `payload` to `dest`.
    ///
    /// The hole-punch request names the reflector and goes to it, followed
    /// the first time by the music list `music`; a datagram to the reflector
    /// is relayed as is, one to any other peer through a tunnel frame; while no
    /// reflector is known, or without an IPv4 destination, the datagram passes
    /// through. Relayed datagrams are reported as sent in full.
    pub fn route_send(&mut self, payload: &[u8], dest: Option<([u8; 4], u16)>, music: &[u8]) -> (r: SendRoute)
        ensures
            ({
                let (s1, frames) = route_send_spec(*old(self), payload@, dest, music@);
                &&& *final(self) == s1
                &&& match frames {
                    None => r is Passthrough,
                    Some(fs) => r matches SendRoute::Relay { frames, reported } && frames_view(frames@) == fs
                        && reported == payload@.len() as u32,
                }
            }),
    {
        let holdpunch = payload.len() >= 4 && payload[0] == 123 && payload[1] == 34 && payload[2] == 114
            && payload[3] == 111;
        proof {
            if payload@.len() >= 4 {
                if holdpunch {
                    assert(payload@.take(4) =~= seq![123u8, 34, 114, 111]);
                } else {
                    assert(payload@.take(4)[0] == payload@[0]);
                    assert(payload@.take(4)[1] == payload@[1]);
                    assert(payload@.take(4)[2] == payload@[2]);
                    assert(payload@.take(4)[3] == payload@[3]);
                }
            }
        }
        if holdpunch {
            match dest {
                Some((ip, port)) => {
                    self.reflector_addr = Some(ip);
                    self.reflector_port = port;
                },
                None => {},
            }
            let mut frames: Vec<Vec<u8>> = Vec::new();
            frames.push(build_frame(TYPE_HOLDPUNCH, payload));
            if !self.music_sent {
                self.music_sent = true;
                frames.push(build_frame(TYPE_MUSIC, music));
            }
            let ghost hp = frame_spec(TYPE_HOLDPUNCH, payload@);
            proof {
                if old(self).music_sent {
                    assert(frames_view(frames@) =~= seq![hp]);
                } else {
                    assert(frames_view(frames@) =~= seq![hp, frame_spec(TYPE_MUSIC, music@)]);
                }
            }
            return SendRoute::Relay { frames, reported: payload.len() as u32 };
        }
        match (dest, self.reflector_addr) {
            (Some((ip, port)), Some(refl)) => {
                let frame = if same_ip(ip, refl) {
                    build_frame(TYPE_REFLECTOR, payload)
                } else {
                    let mut tunnel: Vec<u8> = Vec::new();
                    tunnel.push(ip[0]);
                    tunnel.push(ip[1]);
                    tunnel.push(ip[2]);
                    tunnel.push(ip[3]);
                    tunnel.push((port / 256) as u8);
                    tunnel.push((port % 256) as u8);
                    extend_bytes(&mut tunnel, payload);
                    assert(tunnel@ =~= tunnel_spec(ip, port, payload@));
                    build_frame(TYPE_TUNNEL, tunnel.as_slice())
                };
                let mut frames: Vec<Vec<u8>> = Vec::new();
                let ghost f = frame@;
                frames.push(frame);
                assert(frames_view(frames@) =~= seq![f]);
                SendRoute::Relay { frames, reported: payload.len() as u32 }
            },
            _ => SendRoute::Passthrough,
        }
    }
}

/// What the game receives for a frame from the reflector.
pub struct RecvDelivery {
    /// The sender address reported to the game.
    pub from_ip: [u8; 4],
    pub from_port: u16,
    /// The datagram handed to the game.
    pub data: Vec<u8>,
    /// Whether the payload is a music intersection to apply to the game's
    /// music list.
    pub apply_music: bool,
}

/// The packet type and payload length in a frame header.
pub open spec fn header_spec(header: [u8; 3]) -> (u8, nat) {
    (header@[0], header@[1] as nat + header@[2] as nat * 256)
}

/// Reads the packet type and payload length of a frame header.
pub fn parse_frame_header(header: [u8; 3]) -> (r: (u8, usize))
    ensures
        (r.0, r.1 as nat) == header_spec(header),
{
    (header[0], header[1] as usize + header[2] as usize * 256)
}

/// What a frame from the reflector turns into for the game.
pub open spec fn delivery_ok(s: RelayState, packet_type: u8, payload: Seq<u8>, d: RecvDelivery) -> bool {
    let refl = match s.reflector_addr {
        Some(ip) => ip,
        None => [0u8, 0u8, 0u8, 0u8],
    };
    if packet_type == TYPE_TUNNEL && payload.len() >= 6 {
        &&& d.from_ip@ == payload.take(4)
        &&& d.from_port == payload[4] as int * 256 + payload[5] as int
        &&& d.data@ == payload.skip(6)
        &&& !d.apply_music
    } else if packet_type == TYPE_MUSIC {
        d.from_ip == refl && d.from_port == s.reflector_port && d.data@ == isfinish_false() && d.apply_music
    } else {
        d.from_ip == refl && d.from_port == s.reflector_port && d.data@ == payload && !d.apply_music
    }
}

impl RelayState {
    /// Turns a frame from the reflector into the datagram the game receives: a
    /// tunnel frame comes from the peer it names; any other frame comes from
    /// the reflector, and a music intersection is answered with
    /// `{"isFinish":false}`.
    pub fn route_recv(&self, packet_type: u8, payload: &[u8]) -> (d: RecvDelivery)
        ensures
            delivery_ok(*self, packet_type, payload@, d),
    {
        let refl = match self.reflector_addr {
            Some(ip) => ip,
            None => [0, 0, 0, 0],
        };
        if packet_type == TYPE_TUNNEL && payload.len() >= 6 {
            let ip: [u8; 4] = [payload[0], payload[1], payload[2], payload[3]];
            let port: u16 = payload[4] as u16 * 256 + payload[5] as u16;
            let mut data: Vec<u8> = Vec::new();
            let mut i: usize = 6;
            while i < payload.len()
                invariant
                    6 <= i <= payload@.len(),
                    data@ == payload@.subrange(6, i as int),
                decreases payload@.len() - i,
            {
                data.push(payload[i]);
                i = i + 1;
                assert(data@ =~= payload@.subrange(6, i as int));
            }
            assert(ip@ =~= payload@.take(4));
            assert(data@ =~= payload@.skip(6));
            RecvDelivery { from_ip: ip, from_port: port, data, apply_music: false }
        } else if packet_type == TYPE_MUSIC {
            let data: Vec<u8> = vec![123u8, 34, 105, 115, 70, 105, 110, 105, 115, 104, 34, 58, 102, 97, 108, 115, 101, 125, 0];
            assert(data@ =~= isfinish_false());
            RecvDelivery { from_ip: refl, from_port: self.reflector_port, data, apply_music: true }
        } else {
            let mut data: Vec<u8> = Vec::new();
            extend_bytes(&mut data, payload);
            assert(data@ =~= payload@);
            RecvDelivery { from_ip: refl, from_port: self.reflector_port, data, apply_music: false }
        }
    }
}

/// How many bytes each receive buffer gets when `len` bytes are delivered:
/// buffers are filled in order, an empty or missing one (length 0) is skipped.
pub open spec fn deliver_counts_spec(bufs: Seq<u32>, len: nat) -> Seq<nat>
    decreases bufs.len(),
{
    if bufs.len() == 0 {
        Seq::empty()
    } else {
        let take: nat = if bufs[0] < len { bufs[0] as nat } else { len };
        seq![take] + deliver_counts_spec(bufs.skip(1), (len - take) as nat)
    }
}

/// The number of bytes each receive buffer gets (see `deliver_counts_spec`).
pub fn deliver_counts(bufs: &[u32], len: usize) -> (counts: Vec<usize>)
    ensures
        counts@.map_values(|c: usize| c as nat) == deliver_counts_spec(bufs@, len as nat),
{
    let mut counts: Vec<usize> = Vec::new();
    let mut remaining = len;
    let mut i: usize = 0;
    assert(bufs@.skip(0) =~= bufs@);
    assert(counts@.map_values(|c: usize| c as nat) + deliver_counts_spec(bufs@, len as nat) =~= deliver_counts_spec(bufs@, len as nat));
    while i < bufs.len()
        invariant
            i <= bufs@.len(),
            remaining <= len,
            counts@.map_values(|c: usize| c as nat) + deliver_counts_spec(bufs@.skip(i as int), remaining as nat)
                == deliver_counts_spec(bufs@, len as nat),
        decreases bufs@.len() - i,
    {
        let b = bufs[i] as usize;
        let take = if b < remaining { b } else { remaining };
        proof {
            let rest = bufs@.skip(i as int);
            assert(rest.skip(1) =~= bufs@.skip(i + 1));
            assert(rest[0] == bufs@[i as int]);
        }
        let ghost before = counts@.map_values(|c: usize| c as nat);
        counts.push(take);
        assert(counts@.map_values(|c: usize| c as nat) =~= before.push(take as nat));
        remaining = remaining - take;
        i = i + 1;
        proof {
            let tail = deliver_counts_spec(bufs@.skip(i as int), remaining as nat);
            assert(before.push(take as nat) + tail =~= before + (seq![take as nat] + tail));
        }
    }
    assert(bufs@.skip(i as int).len() == 0);
    assert(counts@.map_values(|c: usize| c as nat) + Seq::<nat>::empty() =~= counts@.map_values(|c: usize| c as nat));
    counts
}

/// One music entry: its id and the bit mask of its enabled difficulties.
pub open spec fn music_entry_bytes(e: (u16, u8)) -> Seq<u8> {
    seq![(e.0 % 256) as u8, (e.0 / 256) as u8, e.1]
}

/// The entries of a music list payload, in order.
pub open spec fn entries_bytes(list: Seq<(u16, u8)>) -> Seq<u8>
    decreases list.len(),
{
    if list.len() == 0 {
        Seq::empty()
    } else {
        entries_bytes(list.drop_last()) + music_entry_bytes(list.last())
    }
}

/// A music list payload: the entry count as 16-bit little endian (capped at
/// 65535) and that many entries.
pub open spec fn encode_music_spec(list: Seq<(u16, u8)>) -> Seq<u8> {
    let n: nat = if list.len() > 65535 { 65535 } else { list.len() };
    seq![(n % 256) as u8, (n / 256) as u8] + entries_bytes(list.take(n as int))
}

proof fn lemma_entries_len(list: Seq<(u16, u8)>)
    ensures
        entries_bytes(list).len() == 3 * list.len(),
    decreases list.len(),
{
    if list.len() > 0 {
        lemma_entries_len(list.drop_last());
    }
}

/// Encodes a music list for the reflector (see `encode_music_spec`).
pub fn encode_music(list: &[(u16, u8)]) -> (buf: Vec<u8>)
    ensures
        buf@ == encode_music_spec(list@),
{
    let n: usize = if list.len() > 65535 { 65535 } else { list.len() };
    let mut buf: Vec<u8> = Vec::new();
    buf.push((n % 256) as u8);
    buf.push((n / 256) as u8);
    let mut i: usize = 0;
    while i < n
        invariant
            i <= n <= list@.len(),
            n <= 65535,
            buf@ == seq![(n % 256) as u8, (n / 256) as u8] + entries_bytes(list@.take(i as int)),
        decreases n - i,
    {
        let (id, mask) = list[i];
        proof {
            assert(list@.take(i + 1).drop_last() =~= list@.take(i as int));
        }
        buf.push((id % 256) as u8);
        buf.push((id / 256) as u8);
        buf.push(mask);
        i = i + 1;
        assert(buf@ =~= seq![(n % 256) as u8, (n / 256) as u8] + entries_bytes(list@.take(i as int)));
    }
    buf
}

/// The entries of a music list payload: the count in its first two bytes,
/// then as many whole 3-byte entries as follow, up to that count.
pub open spec fn parse_music_spec(payload: Seq<u8>) -> Seq<(u16, u8)> {
    if payload.len() < 2 {
        Seq::empty()
    } else {
        let count = payload[0] as int + payload[1] as int * 256;
        let whole = (payload.len() - 2) / 3;
        let n = if count < whole { count } else { whole };
        Seq::new(
            n as nat,
            |i: int| ((payload[2 + 3 * i] as int + payload[3 + 3 * i] as int * 256) as u16, payload[4 + 3 * i]),
        )
    }
}

/// Reads the music entries of an intersection frame (see `parse_music_spec`).
pub fn parse_intersection(payload: &[u8]) -> (out: Vec<(u16, u8)>)
    ensures
        out@ == parse_music_spec(payload@),
{
    if payload.len() < 2 {
        let out: Vec<(u16, u8)> = Vec::new();
        assert(out@ =~= parse_music_spec(payload@));
        return out;
    }
    let count: usize = payload[0] as usize + payload[1] as usize * 256;
    let mut out: Vec<(u16, u8)> = Vec::new();
    let mut i: usize = 0;
    let ghost whole = (payload@.len() - 2) / 3;
    while i < count && 2 + 3 * i + 3 <= payload.len()
        invariant
            payload@.len() >= 2,
            count == payload@[0] as int + payload@[1] as int * 256,
            i <= count,
            whole == (payload@.len() - 2) / 3,
            i <= whole,
            out@.len() == i,
            forall|j: int|
                0 <= j < i ==> #[trigger] out@[j] == ((payload@[2 + 3 * j] as int + payload@[3 + 3 * j] as int * 256) as u16,
                payload@[4 + 3 * j]),
        decreases count - i,
    {
        let off = 2 + 3 * i;
        let id: u16 = payload[off] as u16 + payload[off + 1] as u16 * 256;
        out.push((id, payload[off + 2]));
        i = i + 1;
    }
    let ghost n = if count < whole { count as int } else { whole };
    assert(i == n) by {
        if i < count {
            assert(2 + 3 * i + 3 > payload@.len());
            assert(whole <= i) by (nonlinear_arith)
                requires
                    whole == (payload@.len() - 2) / 3,
                    2 + 3 * i + 3 > payload@.len(),
                    payload@.len() >= 2,
            ;
        }
    }
    assert(out@ =~= parse_music_spec(payload@));
    out
}

/// Reading back an encoded music list gives the list, for lists of at most
/// 65535 entries.
pub proof fn lemma_music_roundtrip(list: Seq<(u16, u8)>)
    requires
        list.len() <= 65535,
    ensures
        parse_music_spec(encode_music_spec(list)) == list,
{
    let e = encode_music_spec(list);
    assert(list.take(list.len() as int) =~= list);
    lemma_entries_len(list);
    assert(e.len() == 2 + 3 * list.len());
    assert((e.len() - 2) / 3 == list.len()) by (nonlinear_arith)
        requires
            e.len() == 2 + 3 * list.len(),
    ;
    assert forall|i: int| 0 <= i < list.len() implies e[2 + 3 * i] == (list[i].0 % 256) as u8 && e[3 + 3 * i] == (
    list[i].0 / 256) as u8 && e[4 + 3 * i] == list[i].1 by {
        lemma_entries_index(list, i);
    }
    assert(parse_music_spec(e) =~= list);
}

proof fn lemma_entries_index(list: Seq<(u16, u8)>, i: int)
    requires
        0 <= i < list.len(),
    ensures
        entries_bytes(list)[3 * i] == (list[i].0 % 256) as u8,
        entries_bytes(list)[3 * i + 1] == (list[i].0 / 256) as u8,
        entries_bytes(list)[3 * i + 2] == list[i].1,
    decreases list.len(),
{
    lemma_entries_len(list.drop_last());
    if i < list.len() - 1 {
        lemma_entries_index(list.drop_last(), i);
    }
}

/// The intersection mask of music `id`, from the first entry with that id.
pub open spec fn intersection_mask_spec(list: Seq<(u16, u8)>, id: u16) -> Option<u8>
    decreases list.len(),
{
    if list.len() == 0 {
        None
    } else if list[0].0 == id {
        Some(list[0].1)
    } else {
        intersection_mask_spec(list.skip(1), id)
    }
}

/// The intersection mask of music `id`, if the intersection names it.
pub fn intersection_mask(list: &[(u16, u8)], id: u16) -> (m: Option<u8>)
    ensures
        m == intersection_mask_spec(list@, id),
{
    let mut i: usize = 0;
    assert(list@.skip(0) =~= list@);
    while i < list.len()
        invariant
            i <= list@.len(),
            intersection_mask_spec(list@, id) == intersection_mask_spec(list@.skip(i as int), id),
        decreases list@.len() - i,
    {
        assert(list@.skip(i as int).skip(1) =~= list@.skip(i + 1));
        if list[i].0 == id {
            return Some(list[i].1);
        }
        i = i + 1;
    }
    None
}

/// The cached music list payload, or an empty list (a zero count) before the
/// game loaded its music.
pub fn music_payload(cached: Option<Vec<u8>>) -> (p: Vec<u8>)
    ensures
        p@ == (match cached {
            Some(v) => v@,
            None => seq![0u8, 0u8],
        }),
{
    match cached {
        Some(v) => v,
        None => {
            let v: Vec<u8> = vec![0, 0];
            assert(v@ =~= seq![0u8, 0u8]);
            v
        },
    }
}

/// The enable flag a difficulty gets from an intersection mask: the mask's
/// bit at the difficulty's id (taken modulo 8).
pub open spec fn difficulty_enable_spec(mask: u8, type_id: u8) -> u8 {
    (mask >> (type_id & 7u8)) & 1u8
}

/// The enable flag a difficulty gets from an intersection mask.
pub fn difficulty_enable(mask: u8, type_id: u8) -> (e: u8)
    ensures
        e == difficulty_enable_spec(mask, type_id),
{
    let sh: u8 = type_id & 7u8;
    assert(sh < 8) by (bit_vector)
        requires sh == type_id & 7u8;
    (mask >> sh) & 1u8
}

/// Bytes between two difficulty entries of a music.
pub const DIFFICULTY_STRIDE: usize = 0x40;
/// The most difficulty entries read of one music.
pub const MAX_DIFFICULTIES: usize = 64;

/// The addresses of a music's difficulty entries, from `first` up to (not
/// including) `last` in steps of one entry, wrapping around the address
/// space, and stopping after `MAX_DIFFICULTIES` entries; `count` entries are
/// already taken.
pub open spec fn difficulty_addrs_spec(first: usize, last: usize, count: nat) -> Seq<usize>
    decreases MAX_DIFFICULTIES - count,
{
    if count >= MAX_DIFFICULTIES || first == last {
        Seq::empty()
    } else {
        seq![first] + difficulty_addrs_spec(
            vstd::wrapping::usize_specs::wrapping_add(first, DIFFICULTY_STRIDE),
            last,
            count + 1,
        )
    }
}

/// The addresses of a music's difficulty entries between the bounds `first`
/// and `last` of its entry vector (see `difficulty_addrs_spec`).
pub fn difficulty_addrs(first: usize, last: usize) -> (out: Vec<usize>)
    ensures
        out@ == difficulty_addrs_spec(first, last, 0),
{
    let mut out: Vec<usize> = Vec::new();
    let mut at = first;
    while at != last && out.len() < MAX_DIFFICULTIES
        invariant
            out@.len() <= MAX_DIFFICULTIES,
            out@ + difficulty_addrs_spec(at, last, out@.len() as nat) == difficulty_addrs_spec(first, last, 0),
        decreases MAX_DIFFICULTIES - out@.len(),
    {
        let ghost before = out@;
        let ghost at0 = at;
        out.push(at);
        at = at.wrapping_add(DIFFICULTY_STRIDE);
        assert(before + difficulty_addrs_spec(at0, last, before.len() as nat) =~= out@ + difficulty_addrs_spec(
            at,
            last,
            out@.len() as nat,
        ));
    }
    assert(difficulty_addrs_spec(at, last, out@.len() as nat) =~= Seq::<usize>::empty());
    assert(out@ + Seq::<usize>::empty() =~= out@);
    out
}

/// The difficulty mask of a music: each difficulty's enable flag shifted to
/// its id's bit (modulo 8), all ORed together.
pub open spec fn difficulty_mask_spec(diffs: Seq<(u8, u8)>) -> u8
    decreases diffs.len(),
{
    if diffs.len() == 0 {
        0
    } else {
        let (t, e) = diffs.last();
        difficulty_mask_spec(diffs.drop_last()) | ((e << (t & 7u8)) as u8)
    }
}

/// The difficulty mask of a music from its difficulties' `(id, enable)`.
pub fn difficulty_mask(diffs: &[(u8, u8)]) -> (m: u8)
    ensures
        m == difficulty_mask_spec(diffs@),
{
    let mut mask: u8 = 0;
    let mut i: usize = 0;
    while i < diffs.len()
        invariant
            i <= diffs@.len(),
            mask == difficulty_mask_spec(diffs@.take(i as int)),
        decreases diffs@.len() - i,
    {
        proof {
            assert(diffs@.take(i + 1).drop_last() =~= diffs@.take(i as int));
        }
        let (t, e) = diffs[i];
        let sh: u8 = t & 7u8;
        assert(sh < 8) by (bit_vector)
            requires sh == t & 7u8;
        mask = mask | ((e << sh) as u8);
        i = i + 1;
    }
    assert(diffs@.take(diffs@.len() as int) =~= diffs@);
    mask
}

proof fn lemma_mask_bit_step(m: u8, e: u8, id: u8, t: u8)
    by (bit_vector)
    requires
        e <= 1,
        t < 8,
    ensures
        (((m | ((e << (id & 7u8)) as u8)) >> t) & 1u8 == 1u8) == (((m >> t) & 1u8 == 1u8) || (e == 1u8 && id % 8 == t)),
{
}

/// Whether one of `diffs` with id `t` (modulo 8) is enabled.
pub open spec fn some_enabled(diffs: Seq<(u8, u8)>, t: int) -> bool {
    exists|i: int| 0 <= i < diffs.len() && #[trigger] diffs[i].0 % 8 == t && diffs[i].1 == 1
}

/// Bit `t` of a music's difficulty mask is set exactly when one of its
/// difficulties with id `t` (modulo 8) is enabled, when every enable flag is
/// 0 or 1.
pub proof fn lemma_difficulty_mask_bits(diffs: Seq<(u8, u8)>, t: u8)
    requires
        t < 8,
        forall|i: int| 0 <= i < diffs.len() ==> #[trigger] diffs[i].1 <= 1,
    ensures
        (((difficulty_mask_spec(diffs) >> t) & 1u8) == 1u8) == some_enabled(diffs, t as int),
    decreases diffs.len(),
{
    if diffs.len() == 0 {
        assert((0u8 >> t) & 1u8 == 0u8) by (bit_vector);
    } else {
        let init = diffs.drop_last();
        let (id, e) = diffs.last();
        assert forall|i: int| 0 <= i < init.len() implies #[trigger] init[i].1 <= 1 by {
            assert(init[i] == diffs[i]);
        }
        lemma_difficulty_mask_bits(init, t);
        assert(diffs[diffs.len() - 1].1 <= 1);
        lemma_mask_bit_step(difficulty_mask_spec(init), e, id, t);
        if some_enabled(diffs, t as int) {
            let i = choose|i: int| 0 <= i < diffs.len() && #[trigger] diffs[i].0 % 8 == t && diffs[i].1 == 1;
            if i < init.len() {
                assert(init[i] == diffs[i]);
            }
        }
        if some_enabled(init, t as int) {
            let i = choose|i: int| 0 <= i < init.len() && #[trigger] init[i].0 % 8 == t && init[i].1 == 1;
            assert(init[i] == diffs[i]);
        }
        if e == 1 && id % 8 == t {
            assert(diffs[diffs.len() - 1].0 % 8 == t);
        }
    }
}

/// An intersection mask built from a music's difficulties gives each
/// difficulty id back its enable flag: 1 exactly when a difficulty with the
/// same id (modulo 8) is enabled.
pub proof fn lemma_difficulty_mask_round_trip(diffs: Seq<(u8, u8)>, type_id: u8)
    requires
        forall|i: int| 0 <= i < diffs.len() ==> #[trigger] diffs[i].1 <= 1,
    ensures
        difficulty_enable_spec(difficulty_mask_spec(diffs), type_id) == (if some_enabled(diffs, (type_id % 8) as int) {
            1u8
        } else {
            0u8
        }),
{
    let t = type_id & 7u8;
    assert(t < 8 && t == type_id % 8) by (bit_vector)
        requires
            t == type_id & 7u8,
    ;
    lemma_difficulty_mask_bits(diffs, t);
    let m = difficulty_mask_spec(diffs);
    assert(((m >> t) & 1u8) <= 1u8) by (bit_vector);
}

/// A music as the game holds it: its id and the ids of its difficulties.
pub struct MusicNode {
    pub id: u16,
    pub difficulties: Vec<u8>,
}

/// What the intersection does to a music: nothing when the intersection does
/// not name it, else every difficulty's enable flag from the mask.
pub open spec fn rewrite_spec(list: Seq<(u16, u8)>, node: MusicNode) -> Option<Seq<u8>> {
    match intersection_mask_spec(list, node.id) {
        Some(mask) => Some(node.difficulties@.map_values(|t: u8| difficulty_enable_spec(mask, t))),
        None => None,
    }
}

/// Applies an intersection payload from the server to the game's musics:
/// for each music, the new enable flags of its difficulties, or `None` for a
/// music the intersection leaves as it is.
pub fn apply_intersection(payload: &[u8], musics: &[MusicNode]) -> (out: Vec<Option<Vec<u8>>>)
    ensures
        out@.len() == musics@.len(),
        forall|i: int| 0 <= i < musics@.len() ==> match #[trigger] rewrite_spec(parse_music_spec(payload@), musics@[i]) {
            Some(e) => out@[i] matches Some(v) && v@ == e,
            None => out@[i] is None,
        },
{
    let list = parse_intersection(payload);
    let mut out: Vec<Option<Vec<u8>>> = Vec::new();
    let mut i: usize = 0;
    while i < musics.len()
        invariant
            i <= musics@.len(),
            list@ == parse_music_spec(payload@),
            out@.len() == i,
            forall|k: int| 0 <= k < i ==> match #[trigger] rewrite_spec(list@, musics@[k]) {
                Some(e) => out@[k] matches Some(v) && v@ == e,
                None => out@[k] is None,
            },
        decreases musics@.len() - i,
    {
        let node = &musics[i];
        match intersection_mask(list.as_slice(), node.id) {
            Some(mask) => {
                let mut enables: Vec<u8> = Vec::new();
                let mut j: usize = 0;
                while j < node.difficulties.len()
                    invariant
                        j <= node.difficulties@.len(),
                        enables@ == node.difficulties@.take(j as int).map_values(|t: u8| difficulty_enable_spec(mask, t)),
                    decreases node.difficulties@.len() - j,
                {
                    proof {
                        assert(node.difficulties@.take(j + 1).map_values(|t: u8| difficulty_enable_spec(mask, t))
                            =~= node.difficulties@.take(j as int).map_values(|t: u8| difficulty_enable_spec(mask, t)).push(
                            difficulty_enable_spec(mask, node.difficulties@[j as int]),
                        ));
                    }
                    enables.push(difficulty_enable(mask, node.difficulties[j]));
                    j = j + 1;
                }
                assert(node.difficulties@.take(node.difficulties@.len() as int) =~= node.difficulties@);
                out.push(Some(enables));
            },
            None => {
                out.push(None);
            },
        }
        i = i + 1;
    }
    out
}

/// The music loading call's signature: `PUSH EAX; CALL load; LEA ECX,[EBP-0x118]; CALL`.
pub open spec fn music_load_tokens() -> Seq<Option<u8>> {
    seq![Some(0x50u8), Some(0xE8u8), None, None, None, None, Some(0x8Du8), Some(0x8Du8), Some(0xE8u8), Some(0xFEu8), Some(0xFFu8), Some(0xFFu8), Some(0xE8u8)]
}

/// A little-endian 32-bit value at `off`, taken as signed.
pub open spec fn le_i32(bytes: Seq<u8>, off: int) -> int {
    let u = bytes[off] + 256 * bytes[off + 1] + 65536 * bytes[off + 2] + 16777216 * bytes[off + 3];
    if u >= 0x8000_0000 { u - 0x1_0000_0000 } else { u }
}

/// `x` wrapped into a machine word.
pub open spec fn wrap_usize(x: int) -> usize {
    if usize::BITS == 64 { (x % 0x1_0000_0000_0000_0000) as usize } else { (x % 0x1_0000_0000) as usize }
}

/// Where the music loading function is: the target of the `CALL` of the
/// first signature match in the code section (`text` holds its bytes, loaded
/// at `text_base`), followed through one `JMP rel32` thunk when the image
/// holds one there. `None` when the signature is not found.
pub open spec fn music_load_target_spec(image_base: usize, image: Seq<u8>, text_base: usize, text: Seq<u8>) -> Option<usize> {
    match first_token_match(text, music_load_tokens(), 0) {
        None => None,
        Some(at) => {
            let target = wrap_usize(text_base + at + 6 + le_i32(text, at + 2));
            let off = target - image_base;
            if target >= image_base && off + 5 <= image.len() && image[off] == 0xE9 {
                Some(wrap_usize(target + 5 + le_i32(image, off + 1)))
            } else {
                Some(target)
            }
        },
    }
}

fn read_i32_at(bytes: &[u8], off: usize) -> (v: i64)
    requires
        off + 4 <= bytes@.len(),
    ensures
        v == le_i32(bytes@, off as int),
{
    let u: i64 = bytes[off] as i64 + 256 * bytes[off + 1] as i64 + 65536 * bytes[off + 2] as i64 + 16777216 * bytes[off + 3] as i64;
    if u >= 0x8000_0000 { u - 0x1_0000_0000 } else { u }
}

fn wrap_add(a: usize, d: i64) -> (r: usize)
    requires
        -0x8000_0000 <= d < 0x8000_0000,
    ensures
        r == wrap_usize(a + d),
{
    let m: i128 = if usize::BITS == 64 { 0x1_0000_0000_0000_0000 } else { 0x1_0000_0000 };
    let x: i128 = a as i128 + d as i128;
    let w: i128 = if x < 0 { x + m } else if x >= m { x - m } else { x };
    assert(w == (a + d) % (m as int)) by {
        assert(a < m);
        if x < 0 {
            vstd::arithmetic::div_mod::lemma_fundamental_div_mod_converse(x as int, m as int, -1, w as int);
        } else if x >= m {
            vstd::arithmetic::div_mod::lemma_fundamental_div_mod_converse(x as int, m as int, 1, w as int);
        } else {
            vstd::arithmetic::div_mod::lemma_fundamental_div_mod_converse(x as int, m as int, 0, w as int);
        }
    }
    w as usize
}

/// Locates the music loading function to hook (see `music_load_target_spec`):
/// `image` is the game image loaded at `image_base`, `text` its code
/// section's bytes loaded at `text_base`.
pub fn init(image_base: usize, image: &[u8], text_base: usize, text: &[u8]) -> (r: Option<usize>)
    requires
        text_base + text@.len() + 6 <= usize::MAX,
        image_base + image@.len() <= usize::MAX,
    ensures
        r == music_load_target_spec(image_base, image@, text_base, text@),
{
    let tokens: Vec<Option<u8>> = vec![Some(0x50u8), Some(0xE8u8), None, None, None, None, Some(0x8Du8), Some(0x8Du8), Some(0xE8u8), Some(0xFEu8), Some(0xFFu8), Some(0xFFu8), Some(0xE8u8)];
    assert(tokens@ =~= music_load_tokens());
    let _text_len = text.len();
    let at = match find_tokens(text, tokens.as_slice()) {
        Some(at) => at,
        None => {
            return None;
        },
    };
    proof {
        crate::patch_engine::lemma_first_token_match_bounds(text@, tokens@, 0);
    }
    let rel = read_i32_at(text, at + 2);
    let target = wrap_add(text_base + at + 6, rel);
    if target >= image_base {
        let off = target - image_base;
        if off <= image.len() && 5 <= image.len() - off && image[off] == 0xE9 {
            let rel2 = read_i32_at(image, off + 1);
            return Some(wrap_add(target + 5, rel2));
        }
    }
    Some(target)
}

} // verus!
