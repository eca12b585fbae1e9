//! Human-readable sizes, durations and shortened cells.

use vstd::prelude::*;
use vstd::string::*;
use vstd::utf8::*;
use vstd::arithmetic::power2::{pow2, lemma_pow2_adds, lemma_pow2_pos, lemma2_to64};
use vstd::arithmetic::div_mod::lemma_div_denominator;
use crate::text::{
    f64_dropped_bits,
    decimal, digit_char, f64_value, f64_value_of, fixed1, fixed2, push_decimal, push_fixed1,
    push_fixed2, push_str, round_half_even, div_round_half_even,
};

verus! {

pub const KIB: u64 = 1024;
pub const MIB: u64 = 1_048_576;
pub const GIB: u64 = 1_073_741_824;
pub const TIB: u64 = 1_099_511_627_776;

/// A byte count as the tool shows it: "1.50 TB", "2.00 GB", "3.5 MB",
/// "4.0 KB" or "512 B", each value rounded (ties to even) from the
/// floating-point value of the count.
pub open spec fn spec_format_bytes(bytes: u64) -> Seq<char> {
    let v = f64_value(bytes as nat);
    if v >= TIB {
        fixed2(round_half_even(v * 100, TIB as nat)) + " TB"@
    } else if v >= GIB {
        fixed2(round_half_even(v * 100, GIB as nat)) + " GB"@
    } else if v >= MIB {
        fixed1(round_half_even(v * 10, MIB as nat)) + " MB"@
    } else if v >= KIB {
        fixed1(round_half_even(v * 10, KIB as nat)) + " KB"@
    } else {
        decimal(v) + " B"@
    }
}

/// A device capacity as listed: like `spec_format_bytes`, but with two
/// decimals for megabytes and no kilobytes.
pub open spec fn spec_size_display(bytes: u64) -> Seq<char> {
    let v = f64_value(bytes as nat);
    if v >= TIB {
        fixed2(round_half_even(v * 100, TIB as nat)) + " TB"@
    } else if v >= GIB {
        fixed2(round_half_even(v * 100, GIB as nat)) + " GB"@
    } else if v >= MIB {
        fixed2(round_half_even(v * 100, MIB as nat)) + " MB"@
    } else {
        decimal(v) + " B"@
    }
}

/// `v * scale / unit`, rounded, as a `u64`.
fn scaled(v: u128, scale: u128, unit: u128) -> (q: u64)
    requires
        v <= 0x1_0000_0000_0000_0000,
        1 <= scale <= 100,
        1024 <= unit <= TIB,
    ensures
        q == round_half_even((v * scale) as nat, unit as nat),
{
    proof {
        let vv = v as int;
        let ss = scale as int;
        assert(vv * ss <= 0x1_0000_0000_0000_0000 * 100) by (nonlinear_arith)
            requires
                0 <= vv <= 0x1_0000_0000_0000_0000,
                1 <= ss <= 100,
        ;
        let n = vv * ss;
        let uu = unit as int;
        assert(n / uu <= n / 1024) by {
            vstd::arithmetic::div_mod::lemma_div_is_ordered_by_denominator(n, 1024, uu);
        }
    }
    let q = div_round_half_even(v * scale, unit);
    q as u64
}

pub fn format_bytes(bytes: u64) -> (s: String)
    ensures
        s@ == spec_format_bytes(bytes),
{
    let v = f64_value_of(bytes);
    let mut s = String::new();
    if v >= TIB as u128 {
        push_fixed2(&mut s, scaled(v, 100, TIB as u128));
        push_str(&mut s, " TB");
    } else if v >= GIB as u128 {
        push_fixed2(&mut s, scaled(v, 100, GIB as u128));
        push_str(&mut s, " GB");
    } else if v >= MIB as u128 {
        push_fixed1(&mut s, scaled(v, 10, MIB as u128));
        push_str(&mut s, " MB");
    } else if v >= KIB as u128 {
        push_fixed1(&mut s, scaled(v, 10, KIB as u128));
        push_str(&mut s, " KB");
    } else {
        push_decimal(&mut s, v as u64);
        push_str(&mut s, " B");
    }
    assert(s@ =~= spec_format_bytes(bytes));
    s
}

pub fn size_display_of(bytes: u64) -> (s: String)
    ensures
        s@ == spec_size_display(bytes),
{
    let v = f64_value_of(bytes);
    let mut s = String::new();
    if v >= TIB as u128 {
        push_fixed2(&mut s, scaled(v, 100, TIB as u128));
        push_str(&mut s, " TB");
    } else if v >= GIB as u128 {
        push_fixed2(&mut s, scaled(v, 100, GIB as u128));
        push_str(&mut s, " GB");
    } else if v >= MIB as u128 {
        push_fixed2(&mut s, scaled(v, 100, MIB as u128));
        push_str(&mut s, " MB");
    } else {
        push_decimal(&mut s, v as u64);
        push_str(&mut s, " B");
    }
    assert(s@ =~= spec_size_display(bytes));
    s
}

/// A whole number of seconds as "1h2m3s", "2m3s" or "3s".
pub open spec fn spec_format_duration(secs: u64) -> Seq<char> {
    if secs >= 3600 {
        decimal((secs / 3600) as nat) + "h"@ + decimal(((secs % 3600) / 60) as nat) + "m"@
            + decimal((secs % 60) as nat) + "s"@
    } else if secs >= 60 {
        decimal((secs / 60) as nat) + "m"@ + decimal((secs % 60) as nat) + "s"@
    } else {
        decimal(secs as nat) + "s"@
    }
}

/// Formats a duration given in whole seconds (the caller truncates its
/// floating-point seconds, as `as u64` does).
pub fn format_duration_secs(secs: u64) -> (s: String)
    ensures
        s@ == spec_format_duration(secs),
{
    let mut s = String::new();
    if secs >= 3600 {
        push_decimal(&mut s, secs / 3600);
        push_str(&mut s, "h");
        push_decimal(&mut s, (secs % 3600) / 60);
        push_str(&mut s, "m");
        push_decimal(&mut s, secs % 60);
        push_str(&mut s, "s");
    } else if secs >= 60 {
        push_decimal(&mut s, secs / 60);
        push_str(&mut s, "m");
        push_decimal(&mut s, secs % 60);
        push_str(&mut s, "s");
    } else {
        push_decimal(&mut s, secs);
        push_str(&mut s, "s");
    }
    assert(s@ =~= spec_format_duration(secs));
    s
}

/// Shortens a table cell: strings of at most `max_len` bytes stay as they
/// are, longer ones keep their first `max_len - 1` bytes followed by "…".
/// The cut must fall between two characters: a slice elsewhere panics.
pub fn truncate(s: &str, max_len: usize) -> (r: String)
    requires
        s.spec_bytes().len() <= max_len || (max_len >= 1 && is_char_boundary(
            s.spec_bytes(),
            max_len - 1,
        )),
    ensures
        s.spec_bytes().len() <= max_len ==> r@ == s@,
        s.spec_bytes().len() > max_len ==> r@ == decode_utf8(
            s.spec_bytes().subrange(0, max_len - 1),
        ) + "…"@,
{
    proof {
        broadcast use encode_utf8_valid_utf8;
    }
    if s.as_bytes().len() <= max_len {
        String::from_str(s)
    } else {
        let (head, _tail) = s.split_at(max_len - 1);
        proof {
            broadcast use encode_utf8_decode_utf8;
            assert(decode_utf8(encode_utf8(head@)) == head@);
            assert(head.spec_bytes() == encode_utf8(head@));
            assert(head.spec_bytes() == s.spec_bytes().subrange(0, max_len - 1));
            assert(decode_utf8(s.spec_bytes().subrange(0, max_len - 1)) == head@);
        }
        let mut r = String::from_str(head);
        push_str(&mut r, "…");
        r
    }
}

/// Dropping the low bits of a number of at least 2^53 leaves at least 2^52.
proof fn lemma_kept_bits(b: nat)
    requires
        b >= 0x20_0000_0000_0000,
    ensures
        b / pow2(f64_dropped_bits(b)) >= 0x10_0000_0000_0000,
    decreases b,
{
    let h = b / 2;
    let k = f64_dropped_bits(h);
    assert(f64_dropped_bits(b) == 1 + k);
    lemma2_to64();
    lemma_pow2_adds(1, k);
    lemma_pow2_pos(k);
    lemma_div_denominator(b as int, 2, pow2(k) as int);
    assert(pow2(f64_dropped_bits(b)) == 2 * pow2(k));
    if h >= 0x20_0000_0000_0000 {
        lemma_kept_bits(h);
    } else {
        assert(k == 0);
        assert(pow2(k) == 1);
    }
}

/// A count below 2^53 converts to floating point exactly; a larger one to
/// at least 2^52.
proof fn lemma_f64_value_bounds(b: nat)
    ensures
        b < 0x20_0000_0000_0000 ==> f64_value(b) == b,
        b >= 0x20_0000_0000_0000 ==> f64_value(b) >= 0x10_0000_0000_0000,
{
    let e = f64_dropped_bits(b);
    lemma_pow2_pos(e);
    lemma2_to64();
    if b < 0x20_0000_0000_0000 {
        assert(e == 0);
        assert(pow2(e) == 1);
        assert(b / 1 == b && b % 1 == 0) by (nonlinear_arith);
        assert(round_half_even(b, 1) == b);
    } else {
        lemma_kept_bits(b);
        let p = pow2(e);
        let q = b / p;
        assert(round_half_even(b, p) >= q);
        assert(round_half_even(b, p) * p >= q) by (nonlinear_arith)
            requires
                round_half_even(b, p) >= q,
                p >= 1,
        ;
    }
}

/// The unit of a byte count is chosen by the count itself: terabytes from
/// 2^40 bytes on, gigabytes from 2^30, megabytes from 2^20, kilobytes from
/// 2^10, with 2, 2, 1, 1 and 0 decimals. Below 2^53 the count is shown
/// exactly; from there on, as its floating-point value.
pub proof fn lemma_format_bytes_units(b: u64)
    ensures
        b >= TIB ==> spec_format_bytes(b) == fixed2(round_half_even(f64_value(b as nat) * 100, TIB as nat))
            + " TB"@,
        TIB <= b < 0x20_0000_0000_0000 ==> spec_format_bytes(b) == fixed2(
            round_half_even((b * 100) as nat, TIB as nat),
        ) + " TB"@,
        GIB <= b < TIB ==> spec_format_bytes(b) == fixed2(round_half_even((b * 100) as nat, GIB as nat)) + " GB"@,
        MIB <= b < GIB ==> spec_format_bytes(b) == fixed1(round_half_even((b * 10) as nat, MIB as nat)) + " MB"@,
        KIB <= b < MIB ==> spec_format_bytes(b) == fixed1(round_half_even((b * 10) as nat, KIB as nat)) + " KB"@,
        b < KIB ==> spec_format_bytes(b) == decimal(b as nat) + " B"@,
{
    lemma_f64_value_bounds(b as nat);
}

} // verus!
