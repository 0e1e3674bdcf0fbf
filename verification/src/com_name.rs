use vstd::prelude::*;

verus! {

/// Longest device name, in code units, that is looked at.
pub const MAX_NAME_UNITS: usize = 64;

/// The units of `s` before its first NUL, at most `n` of them.
pub open spec fn truncated_prefix(s: Seq<u8>, n: nat) -> Seq<u8>
    decreases n,
{
    if n == 0 || s.len() == 0 || s[0] == 0 {
        Seq::empty()
    } else {
        seq![s[0]] + truncated_prefix(s.skip(1), (n - 1) as nat)
    }
}

/// A wide code unit as a narrow one: ASCII stays, anything else becomes a
/// byte that no part of a port name accepts.
pub open spec fn narrow_unit(u: u16) -> u8 {
    if u < 0x80 { u as u8 } else { 0xFF }
}

/// Whether `s` starts with `p`.
pub open spec fn starts_with(s: Seq<u8>, p: Seq<u8>) -> bool {
    s.len() >= p.len() && s.take(p.len() as int) == p
}

/// `\\.\`, `\\?\` and `\??\` as bytes.
pub open spec fn device_prefixes() -> Seq<Seq<u8>> {
    seq![seq![92u8, 92, 46, 92], seq![92u8, 92, 63, 92], seq![92u8, 63, 63, 92]]
}

/// The name without one leading device namespace prefix.
pub open spec fn strip_device_prefix(s: Seq<u8>) -> Seq<u8> {
    if starts_with(s, device_prefixes()[0]) || starts_with(s, device_prefixes()[1]) || starts_with(
        s,
        device_prefixes()[2],
    ) {
        s.skip(4)
    } else {
        s
    }
}

/// What follows `COM` or `com`, without one trailing colon; `None` when the
/// name starts with neither.
pub open spec fn com_suffix(t: Seq<u8>) -> Option<Seq<u8>> {
    if starts_with(t, seq![67u8, 79, 77]) || starts_with(t, seq![99u8, 111, 109]) {
        let r = t.skip(3);
        Some(if r.len() > 0 && r.last() == 58 { r.drop_last() } else { r })
    } else {
        None
    }
}

pub open spec fn is_digit(b: u8) -> bool {
    48 <= b <= 57
}

pub open spec fn all_digits(s: Seq<u8>) -> bool {
    forall|i: int| 0 <= i < s.len() ==> is_digit(#[trigger] s[i])
}

/// The number that a string of decimal digits denotes.
pub open spec fn decimal_value(s: Seq<u8>) -> nat
    decreases s.len(),
{
    if s.len() == 0 {
        0
    } else {
        decimal_value(s.drop_last()) * 10 + (s.last() - 48) as nat
    }
}

/// The digits of an unsigned decimal number, after an optional `+`.
pub open spec fn unsigned_digits(r: Seq<u8>) -> Seq<u8> {
    if r.len() > 0 && r[0] == 43 { r.skip(1) } else { r }
}

/// The COM port that a device name designates: an optional namespace prefix,
/// `COM` or `com`, a decimal number from 1 to 256 with an optional `+`, and
/// an optional colon. Any unit outside ASCII makes the name designate no port.
pub open spec fn com_port_spec(name: Seq<u8>) -> Option<u32> {
    match com_suffix(strip_device_prefix(name)) {
        None => None,
        Some(r) => {
            let d = unsigned_digits(r);
            if d.len() > 0 && all_digits(d) && 1 <= decimal_value(d) <= 256 {
                Some(decimal_value(d) as u32)
            } else {
                None
            }
        },
    }
}

proof fn lemma_decimal_prefix(s: Seq<u8>, i: int)
    requires
        0 <= i <= s.len(),
        all_digits(s),
    ensures
        decimal_value(s.take(i)) <= decimal_value(s),
    decreases s.len(),
{
    if i == s.len() {
        assert(s.take(i) =~= s);
    } else {
        let t = s.drop_last();
        assert(all_digits(t)) by {
            assert forall|j: int| 0 <= j < t.len() implies is_digit(#[trigger] t[j]) by {
                assert(t[j] == s[j]);
            }
        }
        lemma_decimal_prefix(t, i);
        assert(t.take(i) =~= s.take(i));
    }
}

fn has_prefix(s: &[u8], p: &[u8]) -> (b: bool)
    ensures
        b == starts_with(s@, p@),
{
    if s.len() < p.len() {
        return false;
    }
    let mut i: usize = 0;
    while i < p.len()
        invariant
            p@.len() <= s@.len(),
            i <= p@.len(),
            forall|j: int| 0 <= j < i ==> s@[j] == p@[j],
        decreases p@.len() - i,
    {
        if s[i] != p[i] {
            assert(s@.take(p@.len() as int)[i as int] != p@[i as int]);
            return false;
        }
        i = i + 1;
    }
    assert(s@.take(p@.len() as int) =~= p@);
    true
}

/// The COM port that `name` designates (see `com_port_spec`).
pub fn com_port_of(name: &[u8]) -> (port: Option<u32>)
    ensures
        port == com_port_spec(name@),
{
    let pre0: [u8; 4] = [92, 92, 46, 92];
    let pre1: [u8; 4] = [92, 92, 63, 92];
    let pre2: [u8; 4] = [92, 63, 63, 92];
    proof {
        assert(pre0@ =~= device_prefixes()[0]);
        assert(pre1@ =~= device_prefixes()[1]);
        assert(pre2@ =~= device_prefixes()[2]);
    }
    let start: usize = if has_prefix(name, pre0.as_slice()) || has_prefix(name, pre1.as_slice()) || has_prefix(
        name,
        pre2.as_slice(),
    ) {
        4
    } else {
        0
    };
    let ghost t = strip_device_prefix(name@);
    assert(t =~= name@.skip(start as int));
    let upper: [u8; 3] = [67, 79, 77];
    let lower: [u8; 3] = [99, 111, 109];
    let rest = slice_from(name, start);
    assert(rest@ =~= t);
    assert(upper@ =~= seq![67u8, 79, 77]);
    assert(lower@ =~= seq![99u8, 111, 109]);
    if !(has_prefix(rest, upper.as_slice()) || has_prefix(rest, lower.as_slice())) {
        return None;
    }
    let mut begin: usize = start + 3;
    let mut end: usize = name.len();
    if end > begin && name[end - 1] == 58 {
        end = end - 1;
    }
    let ghost r = t.skip(3);
    let ghost r2 = if r.len() > 0 && r.last() == 58 { r.drop_last() } else { r };
    assert(r2 =~= name@.subrange(begin as int, end as int));
    if end > begin && name[begin] == 43 {
        begin = begin + 1;
    }
    let ghost d = unsigned_digits(r2);
    assert(d =~= name@.subrange(begin as int, end as int));
    if begin >= end {
        return None;
    }
    assert(com_port_spec(name@) == (if d.len() > 0 && all_digits(d) && 1 <= decimal_value(d) <= 256 {
        Some(decimal_value(d) as u32)
    } else {
        None
    }));
    let mut acc: u32 = 0;
    let mut i: usize = begin;
    while i < end
        invariant
            begin <= i <= end <= name@.len(),
            d == name@.subrange(begin as int, end as int),
            d.len() > 0,
            com_port_spec(name@) == (if all_digits(d) && 1 <= decimal_value(d) <= 256 {
                Some(decimal_value(d) as u32)
            } else {
                None
            }),
            all_digits(d.take(i - begin)),
            acc == decimal_value(d.take(i - begin)),
            acc <= 256,
        decreases end - i,
    {
        let b = name[i];
        let k = i - begin;
        assert(d[k as int] == b);
        if b < 48 || b > 57 {
            assert(!all_digits(d));
            return None;
        }
        assert(d.take(k + 1).drop_last() =~= d.take(k as int));
        assert(all_digits(d.take(k + 1))) by {
            assert forall|j: int| 0 <= j < k + 1 implies is_digit(#[trigger] d.take(k + 1)[j]) by {
                if j < k {
                    assert(d.take(k + 1)[j] == d.take(k as int)[j]);
                }
            }
        }
        let next: u32 = acc * 10 + (b - 48) as u32;
        if next > 256 {
            proof {
                if all_digits(d) {
                    lemma_decimal_prefix(d, k + 1);
                }
            }
            return None;
        }
        acc = next;
        i = i + 1;
    }
    assert(d.take(d.len() as int) =~= d);
    if acc == 0 {
        return None;
    }
    Some(acc)
}

fn slice_from(s: &[u8], start: usize) -> (out: &[u8])
    requires
        start <= s@.len(),
    ensures
        out@ == s@.skip(start as int),
{
    let (_, right) = s.split_at(start);
    right
}

/// The units of `name` before its first NUL, at most `limit` of them.
pub fn truncate_to(name: &[u8], limit: usize) -> (out: Vec<u8>)
    ensures
        out@ == truncated_prefix(name@, limit as nat),
{
    let mut out: Vec<u8> = Vec::new();
    let mut i: usize = 0;
    assert(name@.skip(0) =~= name@);
    assert(Seq::<u8>::empty() + truncated_prefix(name@, limit as nat) =~= truncated_prefix(name@, limit as nat));
    while i < name.len() && i < limit && name[i] != 0
        invariant
            i <= name@.len(),
            i <= limit,
            out@ + truncated_prefix(name@.skip(i as int), (limit - i) as nat) == truncated_prefix(
                name@,
                limit as nat,
            ),
        decreases name@.len() - i,
    {
        proof {
            let rest = name@.skip(i as int);
            assert(rest.skip(1) =~= name@.skip(i + 1));
            assert(rest[0] == name@[i as int]);
            assert(out@.push(name@[i as int]) + truncated_prefix(name@.skip(i + 1), (limit - i - 1) as nat)
                =~= out@ + truncated_prefix(rest, (limit - i) as nat));
        }
        out.push(name[i]);
        i = i + 1;
    }
    assert(truncated_prefix(name@.skip(i as int), (limit - i) as nat) =~= Seq::<u8>::empty());
    assert(out@ + Seq::<u8>::empty() =~= out@);
    out
}

/// The COM port that a narrow device name designates.
pub fn parse_com_a(name: &[u8]) -> (port: Option<u32>)
    ensures
        port == com_port_spec(truncated_prefix(name@, MAX_NAME_UNITS as nat)),
{
    let t = truncate_to(name, MAX_NAME_UNITS);
    com_port_of(t.as_slice())
}

/// A wide name with every unit narrowed (see `narrow_unit`).
pub open spec fn narrow_name(units: Seq<u16>) -> Seq<u8> {
    units.map_values(|u: u16| narrow_unit(u))
}

/// The COM port that a wide device name designates.
pub fn parse_com_w(name: &[u16]) -> (port: Option<u32>)
    ensures
        port == com_port_spec(truncated_prefix(narrow_name(name@), MAX_NAME_UNITS as nat)),
{
    let mut narrow: Vec<u8> = Vec::new();
    let mut i: usize = 0;
    while i < name.len()
        invariant
            i <= name@.len(),
            narrow@ == narrow_name(name@.take(i as int)),
        decreases name@.len() - i,
    {
        let u = name[i];
        let b: u8 = if u < 0x80 { u as u8 } else { 0xFF };
        proof {
            assert(narrow_name(name@.take(i + 1)) =~= narrow_name(name@.take(i as int)).push(narrow_unit(u)));
        }
        narrow.push(b);
        i = i + 1;
    }
    assert(name@.take(name@.len() as int) =~= name@);
    parse_com_a(narrow.as_slice())
}

} // verus!
