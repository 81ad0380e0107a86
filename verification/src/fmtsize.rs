//! Human-readable formatting of memory sizes with binary (x1024) unit
//! scaling: plain bytes below 1024, otherwise two decimal places of the
//! scaled value followed by the unit.

use vstd::prelude::*;
use vstd::string::*;
use vstd::arithmetic::power2::*;
use vstd::arithmetic::div_mod::*;

use crate::decimal::dec_of;
use crate::decimal::u64_to_string;

verus! {

/// How many times `mem` can be divided by 1024 before falling below 1024.
pub open spec fn scale_power(mem: nat) -> nat
    decreases mem,
{
    if mem < 1024 {
        0
    } else {
        1 + scale_power(mem / 1024)
    }
}

/// `1024^p`.
pub open spec fn pow1024(p: nat) -> int {
    pow2(p * 10) as int
}

/// The scaled value in hundredths, rounded half up:
/// `round(mem * 100 / 1024^p)`.
pub open spec fn scaled_hundredths(mem: nat, p: nat) -> int {
    (mem * 100 + pow1024(p) / 2) / pow1024(p)
}

/// Two decimal digits for a fraction in hundredths, zero-padded.
pub open spec fn frac2_seq(h: nat) -> Seq<char>
    recommends
        h < 100,
{
    if h < 10 {
        seq!['0'] + dec_of(h)
    } else {
        dec_of(h)
    }
}

/// The unit suffix for scale power `p`: named binary units up to TB, an
/// exponential form beyond.
pub open spec fn unit_seq(p: nat) -> Seq<char>
    recommends
        p >= 1,
{
    if p == 1 {
        seq!['k', 'B']
    } else if p == 2 {
        seq!['M', 'B']
    } else if p == 3 {
        seq!['G', 'B']
    } else if p == 4 {
        seq!['T', 'B']
    } else {
        seq![' ', 'x', ' ', '2', '^'] + dec_of(p * 10)
    }
}

/// The formatted memory size: the exact byte count below 1024 bytes,
/// otherwise the value scaled by the largest fitting power of 1024, with
/// two decimal places and the unit.
pub open spec fn mem_size_seq(mem: nat) -> Seq<char> {
    let p = scale_power(mem);
    if p == 0 {
        dec_of(mem) + seq![' ', 'b', 'y', 't', 'e', 's']
    } else {
        let h = scaled_hundredths(mem, p);
        dec_of((h / 100) as nat) + seq!['.'] + frac2_seq((h % 100) as nat) + seq![' ']
            + unit_seq(p)
    }
}

/// The first seven powers of 1024, from the known powers of two.
proof fn lemma_pow1024_values()
    ensures
        pow1024(0) == 1,
        pow1024(1) == 1024,
        pow1024(2) == 0x100000,
        pow1024(3) == 0x40000000,
        pow1024(4) == 0x10000000000,
        pow1024(5) == 0x4000000000000,
        pow1024(6) == 0x1000000000000000,
{
    lemma2_to64();
    lemma2_to64_rest();
}

/// The unit suffix for scale power `power`.
fn unit_str(power: u64) -> (r: String)
    requires
        1 <= power <= 6,
    ensures
        r@ == unit_seq(power as nat),
{
    if power == 1 {
        let r = String::from_str("kB");
        proof {
            reveal_strlit("kB");
            assert(r@ =~= unit_seq(power as nat));
        }
        r
    } else if power == 2 {
        let r = String::from_str("MB");
        proof {
            reveal_strlit("MB");
            assert(r@ =~= unit_seq(power as nat));
        }
        r
    } else if power == 3 {
        let r = String::from_str("GB");
        proof {
            reveal_strlit("GB");
            assert(r@ =~= unit_seq(power as nat));
        }
        r
    } else if power == 4 {
        let r = String::from_str("TB");
        proof {
            reveal_strlit("TB");
            assert(r@ =~= unit_seq(power as nat));
        }
        r
    } else {
        let mut r = String::from_str(" x 2^");
        let exp = u64_to_string(power * 10);
        r.append(exp.as_str());
        proof {
            reveal_strlit(" x 2^");
            assert(r@ =~= unit_seq(power as nat));
        }
        r
    }
}

/// Two decimal digits for `frac` hundredths, zero-padded on the left.
fn frac2_str(frac: u64) -> (r: String)
    requires
        frac < 100,
    ensures
        r@ == frac2_seq(frac as nat),
{
    if frac < 10 {
        let mut r = String::from_str("0");
        let d = u64_to_string(frac);
        r.append(d.as_str());
        proof {
            reveal_strlit("0");
            assert(r@ =~= frac2_seq(frac as nat));
        }
        r
    } else {
        u64_to_string(frac)
    }
}

/// Formats `mem` bytes for diagnostic output, scaling by powers of 1024.
pub fn format_mem_size(mem: u64) -> (r: String)
    ensures
        r@ == mem_size_seq(mem as nat),
{
    let mut m: u64 = mem;
    let mut d: u64 = 1;
    let mut power: u64 = 0;
    proof {
        lemma_pow1024_values();
    }
    while m >= 1024
        invariant
            d == pow1024(power as nat),
            1 <= d <= u64::MAX,
            m == mem as int / d as int,
            scale_power(mem as nat) == power + scale_power(m as nat),
            power <= 6,
        decreases m,
    {
        proof {
            lemma_fundamental_div_mod(mem as int, d as int);
            assert(mem >= 1024 * d) by (nonlinear_arith)
                requires
                    mem as int == (m as int) * (d as int) + ((mem as int) % (d as int)),
                    (mem as int) % (d as int) >= 0,
                    m >= 1024,
                    d >= 1,
            ;
            lemma_pow2_adds((power * 10) as nat, 10);
            lemma2_to64();
            assert(pow1024((power + 1) as nat) == 1024 * pow1024(power as nat));
            lemma_div_denominator(mem as int, d as int, 1024);
            if power == 6 {
                // d is 1024^6 = 2^60, so mem / d fits in 4 bits and the
                // loop cannot still be running.
                lemma_pow1024_values();
                assert(m < 1024) by (nonlinear_arith)
                    requires
                        mem as int == (m as int) * (d as int) + ((mem as int) % (d as int)),
                        (mem as int) % (d as int) >= 0,
                        mem <= u64::MAX,
                        d == 0x1000000000000000,
                ;
            }
        }
        m = m / 1024;
        d = d * 1024;
        power = power + 1;
    }
    if power == 0 {
        let mut r = u64_to_string(mem);
        r.append(" bytes");
        proof {
            reveal_strlit(" bytes");
            assert(r@ =~= mem_size_seq(mem as nat));
        }
        r
    } else {
        proof {
            lemma_fundamental_div_mod(mem as int, d as int);
            lemma_mod_bound(mem as int, d as int);
            assert((mem as int) < 1024 * (d as int)) by (nonlinear_arith)
                requires
                    mem as int == (m as int) * (d as int) + ((mem as int) % (d as int)),
                    (mem as int) % (d as int) < (d as int),
                    (m as int) < 1024,
                    d >= 1,
            ;
        }
        let h128: u128 = ((mem as u128) * 100 + (d as u128) / 2) / (d as u128);
        proof {
            assert((mem as int) * 100 + (d as int) / 2 < 102401 * (d as int)) by (nonlinear_arith)
                requires
                    (mem as int) < 1024 * (d as int),
                    d >= 1,
            ;
            lemma_fundamental_div_mod(((mem as int) * 100 + (d as int) / 2) as int, d as int);
            assert(h128 < 102401) by (nonlinear_arith)
                requires
                    (mem as int) * 100 + (d as int) / 2 < 102401 * (d as int),
                    d >= 1,
                    h128 == ((mem as int) * 100 + (d as int) / 2) / (d as int),
            ;
            assert(h128 == scaled_hundredths(mem as nat, power as nat));
        }
        let h: u64 = h128 as u64;
        let whole: u64 = h / 100;
        let frac: u64 = h % 100;
        let mut r = u64_to_string(whole);
        r.append(".");
        let f = frac2_str(frac);
        r.append(f.as_str());
        r.append(" ");
        let u = unit_str(power);
        r.append(u.as_str());
        proof {
            reveal_strlit(".");
            reveal_strlit(" ");
            assert(r@ =~= mem_size_seq(mem as nat));
        }
        r
    }
}

} // verus!
