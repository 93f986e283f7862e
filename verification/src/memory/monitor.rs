use vstd::prelude::*;
use vstd::string::*;
use crate::text::{decimal, decimal_string, digit_char, digit_string};

verus! {

/// A snapshot of the machine's memory, in bytes, with the memory load in percent.
#[derive(Debug, Clone)]
pub struct MemoryStatus {
    pub memory_load: u32,
    pub total_phys: u64,
    pub avail_phys: u64,
    pub total_page_file: u64,
    pub avail_page_file: u64,
    pub total_virtual: u64,
    pub avail_virtual: u64,
    pub avail_extended_virtual: u64,
}

/// The distance between neighbouring `f64` values near `b`: 1 below 2^53, doubling
/// with each further bit of `b`.
pub open spec fn f64_spacing(b: u64) -> u64 {
    if b < 0x20_0000_0000_0000 {
        1
    } else if b < 0x40_0000_0000_0000 {
        2
    } else if b < 0x80_0000_0000_0000 {
        4
    } else if b < 0x100_0000_0000_0000 {
        8
    } else if b < 0x200_0000_0000_0000 {
        16
    } else if b < 0x400_0000_0000_0000 {
        32
    } else if b < 0x800_0000_0000_0000 {
        64
    } else if b < 0x1000_0000_0000_0000 {
        128
    } else if b < 0x2000_0000_0000_0000 {
        256
    } else if b < 0x4000_0000_0000_0000 {
        512
    } else if b < 0x8000_0000_0000_0000 {
        1024
    } else {
        2048
    }
}

/// `x / d` rounded to the nearest integer, ties to the even one.
pub open spec fn round_half_even_div(x: nat, d: nat) -> nat {
    let q = x / d;
    let r = x % d;
    if 2 * r > d || (2 * r == d && q % 2 == 1) {
        q + 1
    } else {
        q
    }
}

/// The value of `b as f64`: `b` rounded to a multiple of the `f64` spacing near it,
/// ties to the even multiple.
pub open spec fn f64_value(b: u64) -> nat {
    round_half_even_div(b as nat, f64_spacing(b) as nat) * f64_spacing(b) as nat
}

/// A number of hundredths written with two decimals, as `{:.2}` writes it.
pub open spec fn two_decimals(h: nat) -> Seq<char> {
    decimal(h / 100) + "."@ + seq![digit_char((h / 10) % 10), digit_char(h % 10)]
}

/// `bytes` in `unit`-sized units with two decimals, rounded as `{:.2}` rounds the
/// `f64` quotient `bytes as f64 / unit as f64`.
pub open spec fn in_units(bytes: u64, unit: nat) -> Seq<char> {
    two_decimals(round_half_even_div(f64_value(bytes) * 100, unit))
}

pub const KB: u64 = 1024;

pub const MB: u64 = 1024 * 1024;

pub const GB: u64 = 1024 * 1024 * 1024;

/// A byte count in the largest binary unit (B, KB, MB, GB) that it reaches.
pub open spec fn byte_size_text(bytes: u64) -> Seq<char> {
    if bytes >= 1024 * 1024 * 1024 {
        in_units(bytes, 1024 * 1024 * 1024) + " GB"@
    } else if bytes >= 1024 * 1024 {
        in_units(bytes, 1024 * 1024) + " MB"@
    } else if bytes >= 1024 {
        in_units(bytes, 1024) + " KB"@
    } else {
        decimal(bytes as nat) + " B"@
    }
}

fn rounded_quotient(x: u128, d: u128) -> (r: u128)
    requires
        d > 0,
        x < 0x1_0000_0000_0000_0000_0000_0000,
        d < 0x1_0000_0000_0000_0000_0000_0000,
    ensures
        r == round_half_even_div(x as nat, d as nat),
{
    let q = x / d;
    let m = x % d;
    if 2 * m > d || (2 * m == d && q % 2 == 1) {
        q + 1
    } else {
        q
    }
}

fn spacing(b: u64) -> (s: u64)
    ensures
        s == f64_spacing(b),
{
    if b < 0x20_0000_0000_0000 {
        1
    } else if b < 0x40_0000_0000_0000 {
        2
    } else if b < 0x80_0000_0000_0000 {
        4
    } else if b < 0x100_0000_0000_0000 {
        8
    } else if b < 0x200_0000_0000_0000 {
        16
    } else if b < 0x400_0000_0000_0000 {
        32
    } else if b < 0x800_0000_0000_0000 {
        64
    } else if b < 0x1000_0000_0000_0000 {
        128
    } else if b < 0x2000_0000_0000_0000 {
        256
    } else if b < 0x4000_0000_0000_0000 {
        512
    } else if b < 0x8000_0000_0000_0000 {
        1024
    } else {
        2048
    }
}

/// The value of `b as f64`, exactly.
fn f64_value_of(b: u64) -> (f: u128)
    ensures
        f == f64_value(b),
        f <= b as nat + 2048,
{
    let s = spacing(b);
    let k = rounded_quotient(b as u128, s as u128);
    proof {
        let bi = b as int;
        let si = s as int;
        vstd::arithmetic::div_mod::lemma_fundamental_div_mod(bi, si);
        assert(k <= bi / si + 1);
        assert(k * si <= bi + si) by (nonlinear_arith)
            requires
                k <= bi / si + 1,
                bi == si * (bi / si) + bi % si,
                bi % si >= 0,
                si > 0,
        ;
    }
    k * (s as u128)
}

fn two_decimals_string(h: u64) -> (r: String)
    ensures
        r@ == two_decimals(h as nat),
{
    let mut s = decimal_string(h / 100);
    s.append(".");
    let tens = digit_string((h / 10) % 10);
    s.append(tens.as_str());
    let ones = digit_string(h % 10);
    s.append(ones.as_str());
    s
}

impl MemoryStatus {
    /// Available physical memory in bytes.
    pub fn get_available_memory(&self) -> (r: u64)
        ensures
            r == self.avail_phys,
    {
        self.avail_phys
    }

    /// Total physical memory in bytes.
    pub fn get_total_memory(&self) -> (r: u64)
        ensures
            r == self.total_phys,
    {
        self.total_phys
    }

    /// Memory load in percent.
    pub fn get_memory_load_percent(&self) -> (r: u32)
        ensures
            r == self.memory_load,
    {
        self.memory_load
    }

    /// Used physical memory in bytes: total less available.
    pub fn get_used_memory(&self) -> (r: u64)
        requires
            self.avail_phys <= self.total_phys,
        ensures
            r == self.total_phys - self.avail_phys,
    {
        self.total_phys - self.avail_phys
    }

    /// A byte count as a human-readable string: `"500 B"`, `"2.00 KB"`, `"1.50 MB"`,
    /// `"2.00 GB"`, with two decimals rounded as `{:.2}` rounds an `f64`.
    pub fn format_bytes(bytes: u64) -> (s: String)
        ensures
            s@ == byte_size_text(bytes),
    {
        if bytes < KB {
            let mut s = decimal_string(bytes);
            s.append(" B");
            return s;
        }
        let f = f64_value_of(bytes);
        let x = f * 100;
        let (h, suffix) = if bytes >= GB {
            (rounded_quotient(x, 1024 * 1024 * 1024), " GB")
        } else if bytes >= MB {
            (rounded_quotient(x, 1024 * 1024), " MB")
        } else {
            (rounded_quotient(x, 1024), " KB")
        };
        let mut s = two_decimals_string(h as u64);
        s.append(suffix);
        s
    }
}

} // verus!
