use vstd::prelude::*;

verus! {

/// The ASCII decimal digits of `n`, most significant first, without leading zeros.
pub open spec fn dec_digits(n: nat) -> Seq<u8>
    decreases n,
{
    if n < 10 {
        seq![(48 + n) as u8]
    } else {
        dec_digits(n / 10).push((48 + n % 10) as u8)
    }
}

/// The ASCII character of a hexadecimal digit, upper case.
pub open spec fn hex_char(d: nat) -> u8 {
    if d < 10 {
        (48 + d) as u8
    } else {
        (55 + d) as u8
    }
}

/// The upper-case hexadecimal digits of `n`, most significant first, without
/// leading zeros.
pub open spec fn hex_digits(n: nat) -> Seq<u8>
    decreases n,
{
    if n < 16 {
        seq![hex_char(n)]
    } else {
        hex_digits(n / 16).push(hex_char(n % 16))
    }
}

/// `s` preceded by as many ASCII zeros as bring it to `width` characters.
pub open spec fn zero_pad(s: Seq<u8>, width: nat) -> Seq<u8> {
    if s.len() >= width {
        s
    } else {
        Seq::new((width - s.len()) as nat, |i: int| 48u8) + s
    }
}

/// Appends `bytes` to `out`.
pub fn push_all(out: &mut Vec<u8>, bytes: &[u8])
    ensures
        final(out)@ == old(out)@ + bytes@,
{
    let mut i: usize = 0;
    while i < bytes.len()
        invariant
            i <= bytes@.len(),
            out@ == old(out)@ + bytes@.take(i as int),
        decreases bytes@.len() - i,
    {
        proof {
            assert(bytes@.take(i + 1) =~= bytes@.take(i as int).push(bytes@[i as int]));
        }
        out.push(bytes[i]);
        i = i + 1;
    }
    assert(bytes@.take(bytes@.len() as int) =~= bytes@);
}

/// Appends the decimal digits of `n` to `out`.
pub fn push_dec(out: &mut Vec<u8>, n: u64)
    ensures
        final(out)@ == old(out)@ + dec_digits(n as nat),
    decreases n,
{
    if n >= 10 {
        push_dec(out, n / 10);
    }
    out.push(48u8 + (n % 10) as u8);
    proof {
        if n >= 10 {
            assert(old(out)@ + dec_digits((n / 10) as nat) + seq![(48 + n % 10) as u8] =~= old(out)@ + dec_digits(
                n as nat,
            ));
        } else {
            assert(old(out)@.push((48 + n % 10) as u8) =~= old(out)@ + dec_digits(n as nat));
        }
    }
}

/// Appends the upper-case hexadecimal digits of `n` to `out`.
pub fn push_hex(out: &mut Vec<u8>, n: u64)
    ensures
        final(out)@ == old(out)@ + hex_digits(n as nat),
    decreases n,
{
    if n >= 16 {
        push_hex(out, n / 16);
    }
    let d: u8 = (n % 16) as u8;
    let c: u8 = if d < 10 { 48 + d } else { 55 + d };
    out.push(c);
    proof {
        if n >= 16 {
            assert(old(out)@ + hex_digits((n / 16) as nat) + seq![hex_char((n % 16) as nat)] =~= old(out)@
                + hex_digits(n as nat));
        } else {
            assert(old(out)@.push(hex_char((n % 16) as nat)) =~= old(out)@ + hex_digits(n as nat));
        }
    }
}

/// Appends `digits` to `out`, first padding them with zeros to `width`.
fn push_padded(out: &mut Vec<u8>, digits: &[u8], width: usize)
    ensures
        final(out)@ == old(out)@ + zero_pad(digits@, width as nat),
{
    let mut k: usize = digits.len();
    while k < width
        invariant
            digits@.len() <= k <= width || (k == digits@.len() && k >= width),
            out@ == old(out)@ + Seq::new((k - digits@.len()) as nat, |i: int| 48u8),
        decreases width - k,
    {
        out.push(48u8);
        k = k + 1;
        proof {
            assert(out@ =~= old(out)@ + Seq::new((k - digits@.len()) as nat, |i: int| 48u8));
        }
    }
    let ghost before = out@;
    push_all(out, digits);
    proof {
        if digits@.len() >= width {
            assert(before =~= old(out)@);
        } else {
            assert(k == width);
        }
        assert(out@ =~= old(out)@ + zero_pad(digits@, width as nat));
    }
}

/// Appends the decimal digits of `n`, zero-padded to `width` (Rust's `{:0w}`).
pub fn push_dec_padded(out: &mut Vec<u8>, n: u64, width: usize)
    ensures
        final(out)@ == old(out)@ + zero_pad(dec_digits(n as nat), width as nat),
{
    let mut digits: Vec<u8> = Vec::new();
    push_dec(&mut digits, n);
    assert(digits@ =~= dec_digits(n as nat));
    push_padded(out, digits.as_slice(), width);
}

/// Appends the upper-case hexadecimal digits of `n`, zero-padded to `width`
/// (Rust's `{:0wX}`).
pub fn push_hex_padded(out: &mut Vec<u8>, n: u64, width: usize)
    ensures
        final(out)@ == old(out)@ + zero_pad(hex_digits(n as nat), width as nat),
{
    let mut digits: Vec<u8> = Vec::new();
    push_hex(&mut digits, n);
    assert(digits@ =~= hex_digits(n as nat));
    push_padded(out, digits.as_slice(), width);
}

/// The decimal digits of `n` as characters.
pub open spec fn dec_chars(n: nat) -> Seq<char> {
    dec_digits(n).map_values(|b: u8| b as char)
}

/// The decimal form of `v`, with a leading `-` when negative.
pub open spec fn signed_dec_chars(v: int) -> Seq<char> {
    if v < 0 {
        seq!['-'] + dec_chars((-v) as nat)
    } else {
        dec_chars(v as nat)
    }
}

fn digit_str(d: u32) -> (s: &'static str)
    requires
        d < 10,
    ensures
        s@ == seq![((48 + d) as u8) as char],
{
    if d == 0 {
        proof { reveal_strlit("0"); }
        "0"
    } else if d == 1 {
        proof { reveal_strlit("1"); }
        "1"
    } else if d == 2 {
        proof { reveal_strlit("2"); }
        "2"
    } else if d == 3 {
        proof { reveal_strlit("3"); }
        "3"
    } else if d == 4 {
        proof { reveal_strlit("4"); }
        "4"
    } else if d == 5 {
        proof { reveal_strlit("5"); }
        "5"
    } else if d == 6 {
        proof { reveal_strlit("6"); }
        "6"
    } else if d == 7 {
        proof { reveal_strlit("7"); }
        "7"
    } else if d == 8 {
        proof { reveal_strlit("8"); }
        "8"
    } else {
        proof { reveal_strlit("9"); }
        "9"
    }
}

/// Appends the decimal digits of `n` to `s`.
fn append_dec(s: &mut String, n: u32)
    ensures
        final(s)@ == old(s)@ + dec_chars(n as nat),
    decreases n,
{
    if n >= 10 {
        append_dec(s, n / 10);
    }
    s.append(digit_str(n % 10));
    proof {
        if n >= 10 {
            assert(dec_chars(n as nat) =~= dec_chars((n / 10) as nat) + seq![((48 + n % 10) as u8) as char]);
            assert(old(s)@ + dec_chars((n / 10) as nat) + seq![((48 + n % 10) as u8) as char] =~= old(s)@ + dec_chars(
                n as nat,
            ));
        } else {
            assert(dec_chars(n as nat) =~= seq![((48 + n % 10) as u8) as char]);
        }
    }
}

/// The decimal form of `v` (see `signed_dec_chars`).
pub fn signed_decimal_string(v: i32) -> (s: String)
    ensures
        s@ == signed_dec_chars(v as int),
{
    if v < 0 {
        proof { reveal_strlit("-"); }
        let mut s = String::from_str("-");
        let m: i64 = v as i64;
        let n: u32 = (-m) as u32;
        append_dec(&mut s, n);
        s
    } else {
        proof { reveal_strlit(""); }
        let mut s = String::from_str("");
        assert(s@ =~= Seq::<char>::empty());
        append_dec(&mut s, v as u32);
        assert(s@ =~= dec_chars(v as nat));
        s
    }
}

} // verus!
