//! Reading the requested disk size from its command-line string form.

use vstd::prelude::*;
use vstd::string::*;

use crate::decimal::is_digit;

verus! {

/// The factor applied to a unit-less size argument: mebibytes.
pub const DEFAULT_SIZE_FACTOR: u64 = 1024 * 1024;

/// The number of bytes that a size string denotes under the binary
/// (powers of 1024) unit system with the given default factor for
/// unit-less numbers, or nothing when the string is not a size.
pub uninterp spec fn parsed_size(s: Seq<char>, default_factor: u64) -> Option<u64>;

/// The decimal digit characters that the size parser reads into its
/// mantissa: those before the first exponent marker 'e'/'E' (a trailing
/// 'e'/'E' acting as a unit comes after every digit, so it never hides
/// one).
pub open spec fn mantissa_digits(s: Seq<char>) -> Seq<char>
    decreases s.len(),
{
    if s.len() == 0 {
        Seq::empty()
    } else if s[0] == 'e' || s[0] == 'E' {
        Seq::empty()
    } else if is_digit(s[0]) {
        seq![s[0]] + mantissa_digits(s.skip(1))
    } else {
        mantissa_digits(s.skip(1))
    }
}

/// `s` without its leading '0' characters.
pub open spec fn drop_leading_zeros(s: Seq<char>) -> Seq<char>
    decreases s.len(),
{
    if s.len() > 0 && s[0] == '0' {
        drop_leading_zeros(s.skip(1))
    } else {
        s
    }
}

/// The twenty decimal digits of `u64::MAX`.
pub open spec fn u64_max_digits() -> Seq<char> {
    seq!['1', '8', '4', '4', '6', '7', '4', '4', '0', '7', '3', '7', '0', '9', '5', '5', '1', '6', '1', '5']
}

/// The size strings on which the parser's rounding increment would
/// overflow: the significant mantissa digits spell `u64::MAX` exactly
/// and a twenty-first digit of five or more follows.
pub open spec fn saturates_mantissa(s: Seq<char>) -> bool {
    let m = drop_leading_zeros(mantissa_digits(s));
    m.len() > 20 && m.take(20) == u64_max_digits() && 53 <= m[20] as u32 <= 57
}

/// The digit of `u64::MAX` at position `j`.
fn u64_max_digit_at(j: usize) -> (c: char)
    requires
        j < 20,
    ensures
        c == u64_max_digits()[j as int],
{
    match j {
        0 => '1',
        1 => '8',
        2 => '4',
        3 => '4',
        4 => '6',
        5 => '7',
        6 => '4',
        7 => '4',
        8 => '0',
        9 => '7',
        10 => '3',
        11 => '7',
        12 => '0',
        13 => '9',
        14 => '5',
        15 => '5',
        16 => '1',
        17 => '6',
        18 => '1',
        _ => '5',
    }
}

/// Decides whether `arg` is one of the strings the size parser cannot
/// round without overflowing (see `saturates_mantissa`).
fn mantissa_saturates(arg: &str) -> (r: bool)
    ensures
        r == saturates_mantissa(arg@),
{
    let len = arg.unicode_len();
    let mut digits: Vec<char> = Vec::new();
    let mut i: usize = 0;
    let mut stop = false;
    proof {
        assert(arg@.skip(0) =~= arg@);
    }
    while i < len && !stop
        invariant
            0 <= i <= len,
            len == arg@.len(),
            !stop ==> mantissa_digits(arg@) =~= digits@ + mantissa_digits(arg@.skip(i as int)),
            stop ==> digits@ =~= mantissa_digits(arg@),
        decreases len - i,
    {
        let c = arg.get_char(i);
        proof {
            assert(arg@.skip(i as int)[0] == arg@[i as int]);
            assert(arg@.skip(i as int).skip(1) =~= arg@.skip(i + 1));
        }
        if c == 'e' || c == 'E' {
            stop = true;
        } else {
            let u = c as u32;
            if u >= 48 && u <= 57 {
                digits.push(c);
            }
        }
        i = i + 1;
    }
    proof {
        if !stop {
            assert(arg@.skip(len as int) =~= Seq::<char>::empty());
        }
        assert(digits@ =~= mantissa_digits(arg@));
        assert(digits@.skip(0) =~= digits@);
    }
    let n = digits.len();
    let mut k: usize = 0;
    while k < n && digits[k] == '0'
        invariant
            0 <= k <= n,
            n == digits@.len(),
            digits@ =~= mantissa_digits(arg@),
            drop_leading_zeros(mantissa_digits(arg@)) == drop_leading_zeros(digits@.skip(k as int)),
        decreases n - k,
    {
        proof {
            assert(digits@.skip(k as int)[0] == digits@[k as int]);
            assert(digits@.skip(k as int).skip(1) =~= digits@.skip(k + 1));
        }
        k = k + 1;
    }
    proof {
        if k < n {
            assert(digits@.skip(k as int)[0] == digits@[k as int]);
        }
        assert(drop_leading_zeros(mantissa_digits(arg@)) == digits@.skip(k as int));
    }
    let ghost m = digits@.skip(k as int);
    if n - k <= 20 {
        return false;
    }
    let mut j: usize = 0;
    while j < 20
        invariant
            0 <= j <= 20,
            k + 20 < n,
            n == digits@.len(),
            m == digits@.skip(k as int),
            m.len() > 20,
            drop_leading_zeros(mantissa_digits(arg@)) == m,
            forall|t: int| 0 <= t < j ==> m[t] == u64_max_digits()[t],
        decreases 20 - j,
    {
        let c = digits[k + j];
        proof {
            assert(m[j as int] == digits@[k + j]);
        }
        if c != u64_max_digit_at(j) {
            proof {
                assert(m.take(20)[j as int] == m[j as int]);
            }
            return false;
        }
        j = j + 1;
    }
    proof {
        assert(m.take(20) =~= u64_max_digits());
    }
    let c21 = digits[k + 20];
    proof {
        assert(m[20] == digits@[k + 20]);
    }
    let u21 = c21 as u32;
    u21 >= 53 && u21 <= 57
}

/// Relies on `parse_size::Config::parse_size`, configured with the binary
/// unit system and `default_factor` for unit-less numbers: its result is
/// a function of the input string and the configuration alone. Its digit
/// loop rounds a saturated `u64` mantissa with an unchecked increment,
/// which overflows exactly on the strings `saturates_mantissa` names; its
/// final fixed-point division can only overflow a `u128` with a factor
/// far above any named unit; and its fraction-exponent counter, moved
/// unchecked once per digit, is an `i32`, safe for any argument of at
/// most a gibibyte. All three bounds are required here, so no admitted
/// input panics.
#[verifier::external_body]
fn parse_size_binary(arg: &str, default_factor: u64) -> (r: Option<u64>)
    requires
        !saturates_mantissa(arg@),
        arg@.len() <= 0x40000000,
        default_factor <= 0x1000000000000000,
    ensures
        r == parsed_size(arg@, default_factor),
{
    parse_size::Config::new()
        .with_binary()
        .with_default_factor(default_factor)
        .parse_size(arg)
        .ok()
}

/// Why a size argument is rejected.
#[derive(Clone, Copy, Debug, PartialEq, Eq)]
pub enum SizeArgError {
    /// The argument is not a size expression.
    Invalid,
    /// The argument denotes zero bytes; a disk must hold at least one.
    Zero,
}

/// Reads a disk size argument ("2097152k", "2048", "2g"): binary units,
/// unit-less numbers are mebibytes, and zero is rejected. The few strings
/// that would overflow the parser are rejected without parsing: those
/// whose significant digits spell `u64::MAX` and continue with a rounding
/// digit, and any argument beyond a gibibyte of text.
pub fn parse_size_arg(arg: &str) -> (r: Result<u64, SizeArgError>)
    ensures
        arg@.len() > 0x40000000 ==> r == Err::<u64, SizeArgError>(SizeArgError::Invalid),
        saturates_mantissa(arg@) ==> r == Err::<u64, SizeArgError>(SizeArgError::Invalid),
        arg@.len() <= 0x40000000 && !saturates_mantissa(arg@) ==> match parsed_size(
            arg@,
            DEFAULT_SIZE_FACTOR,
        ) {
            None => r == Err::<u64, SizeArgError>(SizeArgError::Invalid),
            Some(v) => r == (if v == 0 {
                Err::<u64, SizeArgError>(SizeArgError::Zero)
            } else {
                Ok::<u64, SizeArgError>(v)
            }),
        },
        r matches Ok(v) ==> parsed_size(arg@, DEFAULT_SIZE_FACTOR) == Some(v) && v >= 1,
{
    if arg.unicode_len() > 0x40000000 {
        return Err(SizeArgError::Invalid);
    }
    if mantissa_saturates(arg) {
        return Err(SizeArgError::Invalid);
    }
    match parse_size_binary(arg, DEFAULT_SIZE_FACTOR) {
        None => Err(SizeArgError::Invalid),
        Some(v) => {
            if v == 0 {
                Err(SizeArgError::Zero)
            } else {
                Ok(v)
            }
        },
    }
}

} // verus!
