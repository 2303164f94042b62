//! Rendering of the report lines as bytes: the panic message line and one
//! line per call frame.

use vstd::prelude::*;

verus! {

/// The ASCII digit for `d` in base sixteen, lower case.
pub open spec fn hex_char(d: nat) -> u8 {
    if d < 10 {
        (48 + d) as u8
    } else {
        (87 + d) as u8
    }
}

/// `n` in base sixteen without leading zeros ("0" for zero).
pub open spec fn hex_digits(n: nat) -> Seq<u8>
    decreases n,
{
    if n < 16 {
        seq![hex_char(n)]
    } else {
        hex_digits(n / 16).push(hex_char(n % 16))
    }
}

/// `n` in base ten without leading zeros ("0" for zero).
pub open spec fn dec_digits(n: nat) -> Seq<u8>
    decreases n,
{
    if n < 10 {
        seq![(48 + n) as u8]
    } else {
        dec_digits(n / 10).push((48 + n % 10) as u8)
    }
}

/// `s` with ASCII zeros in front, up to `width` bytes.
pub open spec fn zero_pad(s: Seq<u8>, width: nat) -> Seq<u8> {
    if s.len() < width {
        Seq::new((width - s.len()) as nat, |i: int| 48u8) + s
    } else {
        s
    }
}

/// `n` in base sixteen after "0x", padded with zeros to eight digits.
pub open spec fn address_text(n: nat) -> Seq<u8> {
    seq![48u8, 120u8] + zero_pad(hex_digits(n), 8)
}

/// One byte as printable ASCII: tab, carriage return, line feed, backslash
/// and both quotes after a backslash; other printable bytes as they are; the
/// rest as a backslash, 'x' and two hex digits.
pub open spec fn escape_byte(b: u8) -> Seq<u8> {
    if b == 9 {
        seq![92u8, 116u8]
    } else if b == 13 {
        seq![92u8, 114u8]
    } else if b == 10 {
        seq![92u8, 110u8]
    } else if b == 92 || b == 39 || b == 34 {
        seq![92u8, b]
    } else if 32 <= b <= 126 {
        seq![b]
    } else {
        seq![92u8, 120u8, hex_char(b as nat / 16), hex_char(b as nat % 16)]
    }
}

/// Every byte of `s` escaped in turn.
pub open spec fn escape_ascii(s: Seq<u8>) -> Seq<u8>
    decreases s.len(),
{
    if s.len() == 0 {
        seq![]
    } else {
        escape_ascii(s.drop_last()) + escape_byte(s.last())
    }
}

/// "Panicked at "
pub open spec fn panicked_at_text() -> Seq<u8> {
    seq![80u8, 97u8, 110u8, 105u8, 99u8, 107u8, 101u8, 100u8, 32u8, 97u8, 116u8, 32u8]
}

/// "Panicked: "
pub open spec fn panicked_text() -> Seq<u8> {
    seq![80u8, 97u8, 110u8, 105u8, 99u8, 107u8, 101u8, 100u8, 58u8, 32u8]
}

/// The first line of a report: "Panicked at {file}:{line} {message}", or
/// "Panicked: {message}" when no location is known.
pub open spec fn panic_line_spec(location: Option<(Seq<u8>, nat)>, message: Seq<u8>) -> Seq<u8> {
    match location {
        Some((file, line)) => panicked_at_text() + file + seq![58u8] + dec_digits(line) + seq![
            32u8,
        ] + message,
        None => panicked_text() + message,
    }
}

/// The line of one frame: "({address}) {symbol} + {offset}" when its address
/// resolved, "({address}) ???" when it did not. The name is escaped to
/// printable ASCII and the offset is written in hex after "0x".
pub open spec fn frame_line_spec(pc: nat, symbol: Option<(Seq<u8>, nat)>) -> Seq<u8> {
    seq![40u8] + address_text(pc) + seq![41u8, 32u8] + match symbol {
        Some((name, inner)) => escape_ascii(name) + seq![32u8, 43u8, 32u8, 48u8, 120u8]
            + hex_digits(inner),
        None => seq![63u8, 63u8, 63u8],
    }
}

/// Appends `n` in hex, without leading zeros.
fn push_hex(out: &mut Vec<u8>, n: usize)
    ensures
        final(out)@ == old(out)@ + hex_digits(n as nat),
    decreases n,
{
    if n >= 16 {
        push_hex(out, n / 16);
    }
    let d = (n % 16) as u8;
    if d < 10 {
        out.push(48 + d);
    } else {
        out.push(87 + d);
    }
}

/// Number of hex digits of `n`.
fn hex_len(n: usize) -> (r: usize)
    ensures
        r == hex_digits(n as nat).len(),
        1 <= r <= 16,
    decreases n,
{
    if n < 16 {
        1
    } else {
        proof {
            lemma_hex_len_bound(n as nat);
        }
        hex_len(n / 16) + 1
    }
}

/// A value that fits in a `usize` has at most sixteen hex digits.
proof fn lemma_hex_len_bound(n: nat)
    requires
        n <= usize::MAX,
    ensures
        1 <= hex_digits(n).len() <= 16,
{
    reveal_with_fuel(pow16, 17);
    assert(pow16(16) == 0x10000000000000000nat);
    lemma_hex_len_below_pow(n, 16);
}

/// A value below sixteen to the `k` has at most `k` hex digits.
proof fn lemma_hex_len_below_pow(n: nat, k: nat)
    requires
        k >= 1,
        n < pow16(k),
    ensures
        1 <= hex_digits(n).len() <= k,
    decreases n,
{
    reveal_with_fuel(pow16, 2);
    if n >= 16 {
        assert(pow16(k) == 16 * pow16((k - 1) as nat));
        assert(k >= 2);
        assert(n / 16 < pow16((k - 1) as nat));
        lemma_hex_len_below_pow(n / 16, (k - 1) as nat);
    }
}

/// Sixteen to the `k`.
spec fn pow16(k: nat) -> nat
    decreases k,
{
    if k == 0 {
        1
    } else {
        16 * pow16((k - 1) as nat)
    }
}

/// Appends `n` in decimal, without leading zeros.
fn push_dec(out: &mut Vec<u8>, n: u32)
    ensures
        final(out)@ == old(out)@ + dec_digits(n as nat),
    decreases n,
{
    if n >= 10 {
        push_dec(out, n / 10);
    }
    out.push(48 + (n % 10) as u8);
}

/// Appends `n` as "0x" and at least eight hex digits.
fn push_address(out: &mut Vec<u8>, n: usize)
    ensures
        final(out)@ == old(out)@ + address_text(n as nat),
{
    let ghost start = out@;
    out.push(48);
    out.push(120);
    let len = hex_len(n);
    let mut k: usize = len;
    while k < 8
        invariant
            len <= k <= 8 || (len > 8 && k == len),
            len == hex_digits(n as nat).len(),
            out@ == start + seq![48u8, 120u8] + Seq::new((k - len) as nat, |i: int| 48u8),
        decreases 8 - k,
    {
        out.push(48);
        proof {
            assert(out@ =~= start + seq![48u8, 120u8] + Seq::new((k + 1 - len) as nat, |i: int| 48u8));
        }
        k = k + 1;
    }
    push_hex(out, n);
    assert(out@ =~= start + address_text(n as nat));
}

/// Appends one byte, escaped to printable ASCII.
fn push_escaped_byte(out: &mut Vec<u8>, b: u8)
    ensures
        final(out)@ == old(out)@ + escape_byte(b),
{
    let ghost start = out@;
    if b == 9 {
        out.push(92);
        out.push(116);
    } else if b == 13 {
        out.push(92);
        out.push(114);
    } else if b == 10 {
        out.push(92);
        out.push(110);
    } else if b == 92 || b == 39 || b == 34 {
        out.push(92);
        out.push(b);
    } else if 32 <= b && b <= 126 {
        out.push(b);
    } else {
        out.push(92);
        out.push(120);
        let hi = b / 16;
        let lo = b % 16;
        out.push(if hi < 10 { 48 + hi } else { 87 + hi });
        out.push(if lo < 10 { 48 + lo } else { 87 + lo });
    }
    assert(out@ =~= start + escape_byte(b));
}

/// Appends the bytes of `s`, each escaped to printable ASCII.
fn push_escaped(out: &mut Vec<u8>, s: &[u8])
    ensures
        final(out)@ == old(out)@ + escape_ascii(s@),
{
    let ghost start = out@;
    let mut i: usize = 0;
    while i < s.len()
        invariant
            i <= s.len(),
            out@ == start + escape_ascii(s@.subrange(0, i as int)),
        decreases s.len() - i,
    {
        push_escaped_byte(out, s[i]);
        proof {
            let t = s@.subrange(0, i + 1);
            assert(t.drop_last() =~= s@.subrange(0, i as int));
            assert(t.last() == s@[i as int]);
            assert(out@ =~= start + escape_ascii(t));
        }
        i = i + 1;
    }
    assert(s@.subrange(0, s.len() as int) =~= s@);
}

/// Appends the bytes of `s` as they are.
fn push_all(out: &mut Vec<u8>, s: &[u8])
    ensures
        final(out)@ == old(out)@ + s@,
{
    let ghost start = out@;
    let mut i: usize = 0;
    while i < s.len()
        invariant
            i <= s.len(),
            out@ == start + s@.subrange(0, i as int),
        decreases s.len() - i,
    {
        out.push(s[i]);
        assert(out@ =~= start + s@.subrange(0, i + 1));
        i = i + 1;
    }
    assert(s@.subrange(0, s.len() as int) =~= s@);
}

/// The first line of a report, for a panic at `location` (a file and a line
/// number) with the text `message`.
pub fn panic_line(location: Option<(&[u8], u32)>, message: &[u8]) -> (r: Vec<u8>)
    ensures
        r@ == panic_line_spec(
            match location {
                Some((file, line)) => Some((file@, line as nat)),
                None => None,
            },
            message@,
        ),
{
    let mut out: Vec<u8> = Vec::new();
    out.push(80);
    out.push(97);
    out.push(110);
    out.push(105);
    out.push(99);
    out.push(107);
    out.push(101);
    out.push(100);
    match location {
        Some((file, line)) => {
            out.push(32);
            out.push(97);
            out.push(116);
            out.push(32);
            push_all(&mut out, file);
            out.push(58);
            push_dec(&mut out, line);
            out.push(32);
            push_all(&mut out, message);
            assert(out@ =~= panicked_at_text() + file@ + seq![58u8] + dec_digits(line as nat) + seq![32u8] + message@);
        },
        None => {
            out.push(58);
            out.push(32);
            push_all(&mut out, message);
            assert(out@ =~= panicked_text() + message@);
        },
    }
    out
}

/// The line of the frame at address `pc`, given what its address resolved
/// to: a function name and the offset into that function, or nothing.
pub fn frame_line(pc: usize, symbol: Option<(&[u8], usize)>) -> (r: Vec<u8>)
    ensures
        r@ == frame_line_spec(
            pc as nat,
            match symbol {
                Some((name, inner)) => Some((name@, inner as nat)),
                None => None,
            },
        ),
{
    let mut out: Vec<u8> = Vec::new();
    out.push(40);
    push_address(&mut out, pc);
    out.push(41);
    out.push(32);
    let ghost head = out@;
    match symbol {
        Some((name, inner)) => {
            push_escaped(&mut out, name);
            out.push(32);
            out.push(43);
            out.push(32);
            out.push(48);
            out.push(120);
            push_hex(&mut out, inner);
            assert(out@ =~= head + (escape_ascii(name@) + seq![32u8, 43u8, 32u8, 48u8, 120u8]
                + hex_digits(inner as nat)));
        },
        None => {
            out.push(63);
            out.push(63);
            out.push(63);
            assert(out@ =~= head + seq![63u8, 63u8, 63u8]);
        },
    }
    out
}

} // verus!
