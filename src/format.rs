//! Text for the screens: byte sizes and shortened names.
use vstd::prelude::*;
use vstd::string::*;
use vstd::utf8::{
    decode_utf8, encode_utf8, encode_utf8_decode_utf8, encode_utf8_valid_utf8, is_char_boundary,
};
use crate::naming::{decimal, digit_char, push_decimal};
use crate::text::string_of;

verus! {

pub const KB: u64 = 1024;
pub const MB: u64 = 1048576;
pub const GB: u64 = 1073741824;

/// `num / den` rounded to the nearest integer, ties to the even one.
pub open spec fn round_half_even(num: nat, den: nat) -> nat
    recommends
        den > 0,
{
    let q = num / den;
    let r = num % den;
    if 2 * r > den || (2 * r == den && q % 2 == 1) {
        q + 1
    } else {
        q
    }
}

/// `size / unit` with two decimals, rounded to the nearest hundredth, ties to even.
pub open spec fn two_decimals(size: nat, unit: nat) -> Seq<char> {
    let h = round_half_even(size * 100, unit);
    decimal(h / 100) + seq!['.', digit_char((h % 100) / 10), digit_char(h % 10)]
}

/// A byte count for people: bytes below one KiB, else KiB, MiB or GiB with two decimals.
pub open spec fn size_text(size: nat) -> Seq<char> {
    if size >= GB {
        two_decimals(size, GB as nat) + " GB"@
    } else if size >= MB {
        two_decimals(size, MB as nat) + " MB"@
    } else if size >= KB {
        two_decimals(size, KB as nat) + " KB"@
    } else {
        decimal(size) + " B"@
    }
}

/// Appends `size / unit` with two decimals.
fn push_two_decimals(out: &mut Vec<char>, size: u64, unit: u64)
    requires
        unit == KB || unit == MB || unit == GB,
    ensures
        final(out)@ == old(out)@ + two_decimals(size as nat, unit as nat),
{
    let num: u128 = size as u128 * 100;
    let den: u128 = unit as u128;
    let q = num / den;
    let r = num % den;
    let h: u128 = if 2 * r > den || (2 * r == den && q % 2 == 1) {
        q + 1
    } else {
        q
    };
    assert(h == round_half_even(size as nat * 100, unit as nat));
    assert(h / 100 <= u64::MAX) by (nonlinear_arith)
        requires
            h <= num / den + 1,
            num == size * 100,
            den >= 1024,
            size <= u64::MAX,
    ;
    push_decimal(out, (h / 100) as u64);
    out.push('.');
    let tens = ((h % 100) / 10) as u64;
    let ones = (h % 10) as u64;
    out.push(digit_of(tens));
    out.push(digit_of(ones));
}

fn digit_of(d: u64) -> (r: char)
    requires
        d < 10,
    ensures
        r == digit_char(d as nat),
{
    let mut v: Vec<char> = Vec::new();
    push_decimal(&mut v, d);
    v[0]
}

fn push_str(out: &mut Vec<char>, s: &str)
    ensures
        final(out)@ == old(out)@ + s@,
{
    let n = s.unicode_len();
    let ghost start = out@;
    let mut i: usize = 0;
    while i < n
        invariant
            n == s@.len(),
            i <= n,
            out@ == start + s@.subrange(0, i as int),
        decreases n - i,
    {
        out.push(s.get_char(i));
        i = i + 1;
        assert(out@ =~= start + s@.subrange(0, i as int));
    }
    assert(s@.subrange(0, n as int) =~= s@);
}

/// A byte count for people, as the screens show it.
pub fn format_size(size: u64) -> (r: String)
    ensures
        r@ == size_text(size as nat),
{
    let mut out: Vec<char> = Vec::new();
    if size >= GB {
        push_two_decimals(&mut out, size, GB);
        push_str(&mut out, " GB");
    } else if size >= MB {
        push_two_decimals(&mut out, size, MB);
        push_str(&mut out, " MB");
    } else if size >= KB {
        push_two_decimals(&mut out, size, KB);
        push_str(&mut out, " KB");
    } else {
        push_decimal(&mut out, size);
        push_str(&mut out, " B");
    }
    assert(out@ =~= size_text(size as nat));
    string_of(&out)
}

/// The last character boundary of `bytes` at or before position `k`.
pub open spec fn boundary_at_or_before(bytes: Seq<u8>, k: int) -> int
    decreases k,
{
    if k <= 0 {
        0
    } else if is_char_boundary(bytes, k) {
        k
    } else {
        boundary_at_or_before(bytes, k - 1)
    }
}

/// `s` fitted to `max_len` bytes of UTF-8: unchanged when it fits, else the longest whole
/// characters within `max_len - 3` bytes followed by `...`.
pub open spec fn truncated(s: Seq<char>, max_len: nat) -> Seq<char> {
    let b = encode_utf8(s);
    if b.len() <= max_len {
        s
    } else {
        let keep = if max_len >= 3 { max_len - 3 } else { 0 };
        decode_utf8(b.subrange(0, boundary_at_or_before(b, keep as int))) + "..."@
    }
}

/// `s` cut to fit `max_len` bytes, with `...` marking the cut; never inside a character.
pub fn truncate_str(s: &str, max_len: usize) -> (r: String)
    ensures
        r@ == truncated(s@, max_len as nat),
{
    let n = s.as_bytes().len();
    if n <= max_len {
        String::from_str(s)
    } else {
        let keep = max_len.saturating_sub(3);
        let ghost b = s.spec_bytes();
        proof {
            encode_utf8_valid_utf8(s@);
        }
        let mut k = keep;
        while k > 0 && !s.is_char_boundary(k)
            invariant
                b == s.spec_bytes(),
                b == encode_utf8(s@),
                k <= keep,
                keep < b.len(),
                boundary_at_or_before(b, keep as int) == boundary_at_or_before(b, k as int),
            decreases k,
        {
            k = k - 1;
        }
        assert(boundary_at_or_before(b, k as int) == k);
        let (head, _) = s.split_at(k);
        proof {
            encode_utf8_decode_utf8(head@);
            assert(head.spec_bytes() == encode_utf8(head@));
            assert(decode_utf8(b.subrange(0, k as int)) == head@);
        }
        let head = String::from_str(head);
        head.concat("...")
    }
}

} // verus!
