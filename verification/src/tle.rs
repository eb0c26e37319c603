//! Parsing of classical two-line element records.
//!
//! A record is two fixed-format 69-byte text lines. Each numeric field is
//! a run of decimal digits, right-justified with leading blanks, possibly
//! around a decimal point at a fixed column; the parser reads the digits
//! of a field as one integer, so a field's value lands in the scaled
//! integer of `OrbitalElements` exactly. Each line ends in a mod-ten
//! checksum digit over the rest of the line, where a minus sign counts as
//! one and any other non-digit as zero.
//!
//! The grammar the parser accepts, by zero-based byte ranges —
//! line one:
//! `[0..2)` the line number `1` and a blank; `[2..7)` the catalog number;
//! `[7]` the classification letter; `[9..17)` the international
//! designator, free text; `[18..20)` the epoch year; `[20..32)` the epoch
//! day of year, three integer and eight fraction digits; `[33..43)` half
//! the first derivative of mean motion, a sign and eight fraction digits;
//! `[44..52)` a sixth of the second derivative in pointed-decimal form —
//! a sign, five mantissa digits, an exponent sign and digit; `[53..61)`
//! the drag term in the same form; `[62]` the ephemeris type; `[64..68)`
//! the element set number; `[68]` the checksum. Line two:
//! `[0..2)` the line number `2` and a blank; `[2..7)` the catalog number
//! again; `[8..16)` the inclination, three integer and four fraction
//! digits; `[17..25)` the right ascension of the ascending node;
//! `[26..33)` the eccentricity, seven fraction digits; `[34..42)` the
//! argument of perigee; `[43..51)` the mean anomaly; `[52..63)` the mean
//! motion, two integer and eight fraction digits; `[63..68)` the
//! revolution number; `[68]` the checksum. Bytes between fields are
//! blanks.

use vstd::prelude::*;

use crate::elements::OrbitalElements;
use crate::errors::ElementParseError;

verus! {

/// An ASCII decimal digit.
pub open spec fn is_digit(c: u8) -> bool {
    48 <= c <= 57
}

/// The value of a decimal digit.
pub open spec fn digit_val(c: u8) -> int {
    c - 48
}

/// The integer read from a run of bytes, digit by digit from the left,
/// where a non-digit (a leading blank) counts as zero.
pub open spec fn digits_val(s: Seq<u8>) -> int
    decreases s.len(),
{
    if s.len() == 0 {
        0
    } else {
        digits_val(s.drop_last()) * 10 + if is_digit(s.last()) {
            digit_val(s.last())
        } else {
            0
        }
    }
}

/// Ten to the `n`-th.
pub open spec fn pow10(n: nat) -> int
    decreases n,
{
    if n == 0 {
        1
    } else {
        10 * pow10((n - 1) as nat)
    }
}

/// A run of digits read as an integer lies below ten to the run's length.
pub proof fn lemma_digits_val_bound(s: Seq<u8>)
    ensures
        0 <= digits_val(s) < pow10(s.len()),
    decreases s.len(),
{
    if s.len() > 0 {
        lemma_digits_val_bound(s.drop_last());
    }
}

/// Ten to any power is at least one.
pub proof fn lemma_pow10_pos(n: nat)
    ensures
        pow10(n) >= 1,
    decreases n,
{
    if n > 0 {
        lemma_pow10_pos((n - 1) as nat);
    }
}

/// Ten to the power is monotone in the exponent.
pub proof fn lemma_pow10_mono(a: nat, b: nat)
    requires
        a <= b,
    ensures
        pow10(a) <= pow10(b),
    decreases b,
{
    lemma_pow10_pos(a);
    if a < b {
        lemma_pow10_mono(a, (b - 1) as nat);
        lemma_pow10_pos((b - 1) as nat);
    }
}

/// The bytes of `s` in `[lo..hi)` are all digits.
pub open spec fn all_digits(s: Seq<u8>, lo: int, hi: int) -> bool {
    forall|i: int| lo <= i < hi ==> is_digit(#[trigger] s[i])
}

/// The bytes of `s` in `[lo..hi)` are digits right-justified with leading
/// blanks: every byte is a blank or a digit, and no blank follows a digit.
pub open spec fn padded_digits_ok(s: Seq<u8>, lo: int, hi: int) -> bool {
    &&& forall|i: int| lo <= i < hi ==> (#[trigger] s[i] == 32 || is_digit(s[i]))
    &&& forall|i: int, j: int| lo <= i < j < hi && #[trigger] s[j] == 32 ==> #[trigger] s[i] == 32
}

/// A sign byte: blank, plus, or minus (blank and plus read positive).
pub open spec fn sign_ok(c: u8) -> bool {
    c == 32 || c == 43 || c == 45
}

/// The sign a sign byte denotes.
pub open spec fn sign_val(c: u8) -> int {
    if c == 45 {
        -1
    } else {
        1
    }
}

/// What one byte adds to the line checksum: a digit its value, a minus
/// sign one, anything else zero.
pub open spec fn checksum_char(c: u8) -> int {
    if is_digit(c) {
        digit_val(c)
    } else if c == 45 {
        1
    } else {
        0
    }
}

/// The checksum sum of a run of bytes.
pub open spec fn checksum_val(s: Seq<u8>) -> int
    decreases s.len(),
{
    if s.len() == 0 {
        0
    } else {
        checksum_val(s.drop_last()) + checksum_char(s.last())
    }
}

/// The checksum sum of a run of bytes is nonnegative and small.
pub proof fn lemma_checksum_val_bound(s: Seq<u8>)
    ensures
        0 <= checksum_val(s) <= 9 * s.len(),
    decreases s.len(),
{
    if s.len() > 0 {
        lemma_checksum_val_bound(s.drop_last());
    }
}

/// A 69-byte line's trailing digit matches the checksum of its first 68
/// bytes, mod ten.
pub open spec fn checksum_ok(s: Seq<u8>) -> bool {
    &&& is_digit(s[68])
    &&& digit_val(s[68]) == checksum_val(s.subrange(0, 68)) % 10
}

/// The field shapes of line one, checksum aside.
pub open spec fn line1_fields_ok(s: Seq<u8>) -> bool {
    &&& padded_digits_ok(s, 2, 7)
    &&& s[8] == 32
    &&& s[17] == 32
    &&& padded_digits_ok(s, 18, 20)
    &&& padded_digits_ok(s, 20, 23)
    &&& s[23] == 46
    &&& all_digits(s, 24, 32)
    &&& s[32] == 32
    &&& sign_ok(s[33])
    &&& s[34] == 46
    &&& all_digits(s, 35, 43)
    &&& s[43] == 32
    &&& sign_ok(s[44])
    &&& padded_digits_ok(s, 45, 50)
    &&& sign_ok(s[50])
    &&& is_digit(s[51])
    &&& s[52] == 32
    &&& sign_ok(s[53])
    &&& padded_digits_ok(s, 54, 59)
    &&& sign_ok(s[59])
    &&& is_digit(s[60])
    &&& s[61] == 32
    &&& s[63] == 32
    &&& padded_digits_ok(s, 64, 68)
}

/// The field shapes of line two, checksum aside.
pub open spec fn line2_fields_ok(s: Seq<u8>) -> bool {
    &&& padded_digits_ok(s, 2, 7)
    &&& s[7] == 32
    &&& padded_digits_ok(s, 8, 11)
    &&& s[11] == 46
    &&& all_digits(s, 12, 16)
    &&& s[16] == 32
    &&& padded_digits_ok(s, 17, 20)
    &&& s[20] == 46
    &&& all_digits(s, 21, 25)
    &&& s[25] == 32
    &&& padded_digits_ok(s, 26, 33)
    &&& s[33] == 32
    &&& padded_digits_ok(s, 34, 37)
    &&& s[37] == 46
    &&& all_digits(s, 38, 42)
    &&& s[42] == 32
    &&& padded_digits_ok(s, 43, 46)
    &&& s[46] == 46
    &&& all_digits(s, 47, 51)
    &&& s[51] == 32
    &&& padded_digits_ok(s, 52, 54)
    &&& s[54] == 46
    &&& all_digits(s, 55, 63)
    &&& padded_digits_ok(s, 63, 68)
}

/// The full year a two-digit epoch year denotes: years below 57 fall in
/// the two-thousands, the rest in the nineteen-hundreds.
pub open spec fn full_year(yy: int) -> int {
    if yy < 57 {
        2000 + yy
    } else {
        1900 + yy
    }
}

/// The record a pair of well-formed lines denotes, field by field.
pub open spec fn elements_of(l1: Seq<u8>, l2: Seq<u8>) -> OrbitalElements {
    OrbitalElements {
        norad_id: digits_val(l1.subrange(2, 7)) as u32,
        classification: l1[7],
        epoch_year: full_year(digits_val(l1.subrange(18, 20))) as u32,
        epoch_day_e8: (digits_val(l1.subrange(20, 23)) * 100_000_000 + digits_val(
            l1.subrange(24, 32),
        )) as u64,
        ndot_e8: (sign_val(l1[33]) * digits_val(l1.subrange(35, 43))) as i64,
        nddot_mant_e5: (sign_val(l1[44]) * digits_val(l1.subrange(45, 50))) as i64,
        nddot_exp: (sign_val(l1[50]) * digit_val(l1[51])) as i32,
        bstar_mant_e5: (sign_val(l1[53]) * digits_val(l1.subrange(54, 59))) as i64,
        bstar_exp: (sign_val(l1[59]) * digit_val(l1[60])) as i32,
        element_set_number: digits_val(l1.subrange(64, 68)) as u32,
        inclination_e4: (digits_val(l2.subrange(8, 11)) * 10_000 + digits_val(
            l2.subrange(12, 16),
        )) as u64,
        raan_e4: (digits_val(l2.subrange(17, 20)) * 10_000 + digits_val(
            l2.subrange(21, 25),
        )) as u64,
        eccentricity_e7: digits_val(l2.subrange(26, 33)) as u64,
        arg_perigee_e4: (digits_val(l2.subrange(34, 37)) * 10_000 + digits_val(
            l2.subrange(38, 42),
        )) as u64,
        mean_anomaly_e4: (digits_val(l2.subrange(43, 46)) * 10_000 + digits_val(
            l2.subrange(47, 51),
        )) as u64,
        mean_motion_e8: (digits_val(l2.subrange(52, 54)) * 100_000_000 + digits_val(
            l2.subrange(55, 63),
        )) as u64,
        rev_number: digits_val(l2.subrange(63, 68)) as u64,
    }
}

/// What parsing a pair of lines yields: the record, or the first check —
/// length, line numbers, checksums, field shapes, matching catalog
/// numbers, nonzero mean motion, in that order — that the pair fails.
pub open spec fn parse_spec(l1: Seq<u8>, l2: Seq<u8>) -> Result<
    OrbitalElements,
    ElementParseError,
> {
    if l1.len() != 69 || l2.len() != 69 {
        Err(ElementParseError::BadLength)
    } else if !(l1[0] == 49 && l1[1] == 32 && l2[0] == 50 && l2[1] == 32) {
        Err(ElementParseError::BadLineNumber)
    } else if !(checksum_ok(l1) && checksum_ok(l2)) {
        Err(ElementParseError::BadChecksum)
    } else if !(line1_fields_ok(l1) && line2_fields_ok(l2)) {
        Err(ElementParseError::BadField)
    } else if digits_val(l1.subrange(2, 7)) != digits_val(l2.subrange(2, 7)) {
        Err(ElementParseError::ObjectMismatch)
    } else if digits_val(l2.subrange(52, 54)) * 100_000_000 + digits_val(l2.subrange(55, 63))
        == 0 {
        Err(ElementParseError::ZeroMeanMotion)
    } else {
        Ok(elements_of(l1, l2))
    }
}

/// Reads a digit run with leading blanks in `[lo..hi)` as an integer;
/// nothing if the bytes break the padded-digits shape.
#[verifier::loop_isolation(false)]
fn scan_padded(s: &[u8], lo: usize, hi: usize) -> (r: Option<u64>)
    requires
        lo <= hi <= s@.len(),
        hi - lo <= 12,
    ensures
        match r {
            Option::Some(v) => padded_digits_ok(s@, lo as int, hi as int) && v == digits_val(
                s@.subrange(lo as int, hi as int),
            ),
            Option::None => !padded_digits_ok(s@, lo as int, hi as int),
        },
{
    let mut val: u64 = 0;
    let mut seen_digit = false;
    let mut i: usize = lo;
    while i < hi
        invariant
            lo <= i <= hi,
            val == digits_val(s@.subrange(lo as int, i as int)),
            val < pow10((i - lo) as nat),
            !seen_digit ==> val == 0,
            seen_digit == exists|j: int| lo <= j < i && #[trigger] s@[j] != 32,
            forall|j: int| lo <= j < i ==> (#[trigger] s@[j] == 32 || is_digit(s@[j])),
            forall|i2: int, j2: int|
                lo <= i2 < j2 < i && #[trigger] s@[j2] == 32 ==> #[trigger] s@[i2] == 32,
        decreases hi - i,
    {
        let c = s[i];
        proof {
            assert(s@.subrange(lo as int, i + 1).drop_last() =~= s@.subrange(lo as int, i as int));
            lemma_pow10_mono((i - lo) as nat, 11);
            assert(pow10(11) == 100_000_000_000) by {
                reveal_with_fuel(pow10, 12);
            }
        }
        if c == 32 {
            if seen_digit {
                return None;
            }
        } else if c >= 48 && c <= 57 {
            seen_digit = true;
            val = val * 10 + ((c - 48) as u64);
        } else {
            return None;
        }
        i = i + 1;
    }
    Some(val)
}

/// Reads an all-digit run in `[lo..hi)` as an integer; nothing if any
/// byte is not a digit.
#[verifier::loop_isolation(false)]
fn scan_digits(s: &[u8], lo: usize, hi: usize) -> (r: Option<u64>)
    requires
        lo <= hi <= s@.len(),
        hi - lo <= 12,
    ensures
        match r {
            Option::Some(v) => all_digits(s@, lo as int, hi as int) && v == digits_val(
                s@.subrange(lo as int, hi as int),
            ),
            Option::None => !all_digits(s@, lo as int, hi as int),
        },
{
    let mut val: u64 = 0;
    let mut i: usize = lo;
    while i < hi
        invariant
            lo <= i <= hi,
            val == digits_val(s@.subrange(lo as int, i as int)),
            val < pow10((i - lo) as nat),
            forall|j: int| lo <= j < i ==> is_digit(#[trigger] s@[j]),
        decreases hi - i,
    {
        let c = s[i];
        proof {
            assert(s@.subrange(lo as int, i + 1).drop_last() =~= s@.subrange(lo as int, i as int));
            lemma_pow10_mono((i - lo) as nat, 11);
            assert(pow10(11) == 100_000_000_000) by {
                reveal_with_fuel(pow10, 12);
            }
        }
        if c >= 48 && c <= 57 {
            val = val * 10 + ((c - 48) as u64);
        } else {
            return None;
        }
        i = i + 1;
    }
    Some(val)
}

/// Computes the checksum sum of the first 68 bytes of a line.
#[verifier::loop_isolation(false)]
fn line_checksum(s: &[u8]) -> (r: u32)
    requires
        s@.len() == 69,
    ensures
        r == checksum_val(s@.subrange(0, 68)),
{
    let mut sum: u32 = 0;
    let mut i: usize = 0;
    while i < 68
        invariant
            i <= 68,
            sum == checksum_val(s@.subrange(0, i as int)),
        decreases 68 - i,
    {
        let c = s[i];
        proof {
            assert(s@.subrange(0, i + 1).drop_last() =~= s@.subrange(0, i as int));
            lemma_checksum_val_bound(s@.subrange(0, i as int));
        }
        if c >= 48 && c <= 57 {
            sum = sum + ((c - 48) as u32);
        } else if c == 45 {
            sum = sum + 1;
        }
        i = i + 1;
    }
    sum
}

/// Multiplying by a field sign negates exactly for a minus byte.
proof fn lemma_sign_mul(c: u8, v: int)
    ensures
        sign_val(c) * v == if c == 45 {
            -v
        } else {
            v
        },
{
    if c == 45 {
        assert(sign_val(c) * v == -v) by (nonlinear_arith)
            requires
                sign_val(c) == -1,
        ;
    } else {
        assert(sign_val(c) * v == v) by (nonlinear_arith)
            requires
                sign_val(c) == 1,
        ;
    }
}

/// Whether a byte is a field sign: blank, plus, or minus.
fn sign_byte_ok(c: u8) -> (r: bool)
    ensures
        r == sign_ok(c),
{
    c == 32 || c == 43 || c == 45
}

/// Parses a two-line element record. Returns the record exactly as the
/// grammar reads it, or the first failed check in the order of
/// `parse_spec`: length, line numbers, checksums, field shapes, matching
/// catalog numbers, nonzero mean motion. A returned record satisfies the
/// element invariant.
pub fn parse_tle(line1: &[u8], line2: &[u8]) -> (r: Result<OrbitalElements, ElementParseError>)
    ensures
        r == parse_spec(line1@, line2@),
        r matches Ok(e) ==> e.wf() && e == elements_of(line1@, line2@),
{
    if line1.len() != 69 || line2.len() != 69 {
        return Err(ElementParseError::BadLength);
    }
    if !(line1[0] == 49 && line1[1] == 32 && line2[0] == 50 && line2[1] == 32) {
        return Err(ElementParseError::BadLineNumber);
    }
    let sum1 = line_checksum(line1);
    let sum2 = line_checksum(line2);
    let c1 = line1[68];
    let c2 = line2[68];
    let cksum1_ok = c1 >= 48 && c1 <= 57 && ((c1 - 48) as u32) == sum1 % 10;
    let cksum2_ok = c2 >= 48 && c2 <= 57 && ((c2 - 48) as u32) == sum2 % 10;
    proof {
        lemma_checksum_val_bound(line1@.subrange(0, 68));
        lemma_checksum_val_bound(line2@.subrange(0, 68));
    }
    if !(cksum1_ok && cksum2_ok) {
        return Err(ElementParseError::BadChecksum);
    }

    let catalog1 = match scan_padded(line1, 2, 7) {
        Some(v) => v,
        None => return Err(ElementParseError::BadField),
    };
    let year = match scan_padded(line1, 18, 20) {
        Some(v) => v,
        None => return Err(ElementParseError::BadField),
    };
    let day_int = match scan_padded(line1, 20, 23) {
        Some(v) => v,
        None => return Err(ElementParseError::BadField),
    };
    let day_frac = match scan_digits(line1, 24, 32) {
        Some(v) => v,
        None => return Err(ElementParseError::BadField),
    };
    let ndot_mag = match scan_digits(line1, 35, 43) {
        Some(v) => v,
        None => return Err(ElementParseError::BadField),
    };
    let nddot_mag = match scan_padded(line1, 45, 50) {
        Some(v) => v,
        None => return Err(ElementParseError::BadField),
    };
    let bstar_mag = match scan_padded(line1, 54, 59) {
        Some(v) => v,
        None => return Err(ElementParseError::BadField),
    };
    let elem_num = match scan_padded(line1, 64, 68) {
        Some(v) => v,
        None => return Err(ElementParseError::BadField),
    };
    let bytes1_ok = line1[8] == 32 && line1[17] == 32 && line1[23] == 46 && line1[32] == 32
        && sign_byte_ok(line1[33]) && line1[34] == 46 && line1[43] == 32 && sign_byte_ok(
        line1[44],
    ) && sign_byte_ok(line1[50]) && (line1[51] >= 48 && line1[51] <= 57) && line1[52] == 32
        && sign_byte_ok(line1[53]) && sign_byte_ok(line1[59]) && (line1[60] >= 48 && line1[60]
        <= 57) && line1[61] == 32 && line1[63] == 32;
    if !bytes1_ok {
        return Err(ElementParseError::BadField);
    }

    let catalog2 = match scan_padded(line2, 2, 7) {
        Some(v) => v,
        None => return Err(ElementParseError::BadField),
    };
    let incl_int = match scan_padded(line2, 8, 11) {
        Some(v) => v,
        None => return Err(ElementParseError::BadField),
    };
    let incl_frac = match scan_digits(line2, 12, 16) {
        Some(v) => v,
        None => return Err(ElementParseError::BadField),
    };
    let raan_int = match scan_padded(line2, 17, 20) {
        Some(v) => v,
        None => return Err(ElementParseError::BadField),
    };
    let raan_frac = match scan_digits(line2, 21, 25) {
        Some(v) => v,
        None => return Err(ElementParseError::BadField),
    };
    let ecc = match scan_padded(line2, 26, 33) {
        Some(v) => v,
        None => return Err(ElementParseError::BadField),
    };
    let argp_int = match scan_padded(line2, 34, 37) {
        Some(v) => v,
        None => return Err(ElementParseError::BadField),
    };
    let argp_frac = match scan_digits(line2, 38, 42) {
        Some(v) => v,
        None => return Err(ElementParseError::BadField),
    };
    let ma_int = match scan_padded(line2, 43, 46) {
        Some(v) => v,
        None => return Err(ElementParseError::BadField),
    };
    let ma_frac = match scan_digits(line2, 47, 51) {
        Some(v) => v,
        None => return Err(ElementParseError::BadField),
    };
    let mm_int = match scan_padded(line2, 52, 54) {
        Some(v) => v,
        None => return Err(ElementParseError::BadField),
    };
    let mm_frac = match scan_digits(line2, 55, 63) {
        Some(v) => v,
        None => return Err(ElementParseError::BadField),
    };
    let rev_num = match scan_padded(line2, 63, 68) {
        Some(v) => v,
        None => return Err(ElementParseError::BadField),
    };
    let bytes2_ok = line2[7] == 32 && line2[11] == 46 && line2[16] == 32 && line2[20] == 46
        && line2[25] == 32 && line2[33] == 32 && line2[37] == 46 && line2[42] == 32 && line2[46]
        == 46 && line2[51] == 32 && line2[54] == 46;
    if !bytes2_ok {
        return Err(ElementParseError::BadField);
    }

    if catalog1 != catalog2 {
        return Err(ElementParseError::ObjectMismatch);
    }

    proof {
        reveal_with_fuel(pow10, 13);
        lemma_digits_val_bound(line1@.subrange(2, 7));
        lemma_digits_val_bound(line1@.subrange(18, 20));
        lemma_digits_val_bound(line1@.subrange(20, 23));
        lemma_digits_val_bound(line1@.subrange(24, 32));
        lemma_digits_val_bound(line1@.subrange(35, 43));
        lemma_digits_val_bound(line1@.subrange(45, 50));
        lemma_digits_val_bound(line1@.subrange(54, 59));
        lemma_digits_val_bound(line1@.subrange(64, 68));
        lemma_digits_val_bound(line2@.subrange(8, 11));
        lemma_digits_val_bound(line2@.subrange(12, 16));
        lemma_digits_val_bound(line2@.subrange(17, 20));
        lemma_digits_val_bound(line2@.subrange(21, 25));
        lemma_digits_val_bound(line2@.subrange(26, 33));
        lemma_digits_val_bound(line2@.subrange(34, 37));
        lemma_digits_val_bound(line2@.subrange(38, 42));
        lemma_digits_val_bound(line2@.subrange(43, 46));
        lemma_digits_val_bound(line2@.subrange(47, 51));
        lemma_digits_val_bound(line2@.subrange(52, 54));
        lemma_digits_val_bound(line2@.subrange(55, 63));
        lemma_digits_val_bound(line2@.subrange(63, 68));
    }

    let mean_motion_e8: u64 = mm_int * 100_000_000 + mm_frac;
    if mean_motion_e8 == 0 {
        return Err(ElementParseError::ZeroMeanMotion);
    }

    let epoch_year: u32 = if year < 57 {
        2000 + (year as u32)
    } else {
        1900 + (year as u32)
    };
    let ndot_e8: i64 = if line1[33] == 45 {
        -(ndot_mag as i64)
    } else {
        ndot_mag as i64
    };
    let nddot_mant_e5: i64 = if line1[44] == 45 {
        -(nddot_mag as i64)
    } else {
        nddot_mag as i64
    };
    let nddot_exp: i32 = if line1[50] == 45 {
        -((line1[51] - 48) as i32)
    } else {
        (line1[51] - 48) as i32
    };
    let bstar_mant_e5: i64 = if line1[53] == 45 {
        -(bstar_mag as i64)
    } else {
        bstar_mag as i64
    };
    let bstar_exp: i32 = if line1[59] == 45 {
        -((line1[60] - 48) as i32)
    } else {
        (line1[60] - 48) as i32
    };

    let e = OrbitalElements {
        norad_id: catalog1 as u32,
        classification: line1[7],
        epoch_year,
        epoch_day_e8: day_int * 100_000_000 + day_frac,
        ndot_e8,
        nddot_mant_e5,
        nddot_exp,
        bstar_mant_e5,
        bstar_exp,
        element_set_number: elem_num as u32,
        inclination_e4: incl_int * 10_000 + incl_frac,
        raan_e4: raan_int * 10_000 + raan_frac,
        eccentricity_e7: ecc,
        arg_perigee_e4: argp_int * 10_000 + argp_frac,
        mean_anomaly_e4: ma_int * 10_000 + ma_frac,
        mean_motion_e8,
        rev_number: rev_num,
    };
    proof {
        lemma_sign_mul(line1@[33], digits_val(line1@.subrange(35, 43)));
        lemma_sign_mul(line1@[44], digits_val(line1@.subrange(45, 50)));
        lemma_sign_mul(line1@[50], digit_val(line1@[51]));
        lemma_sign_mul(line1@[53], digits_val(line1@.subrange(54, 59)));
        lemma_sign_mul(line1@[59], digit_val(line1@[60]));
        assert(e == elements_of(line1@, line2@));
    }
    Ok(e)
}


/// The records of a batch of line pairs that parse, in order; a pair
/// that fails any check contributes nothing.
pub open spec fn kept_records(pairs: Seq<(Vec<u8>, Vec<u8>)>) -> Seq<OrbitalElements>
    decreases pairs.len(),
{
    if pairs.len() == 0 {
        Seq::empty()
    } else {
        kept_records(pairs.drop_last()) + match parse_spec(
            pairs.last().0@,
            pairs.last().1@,
        ) {
            Ok(e) => seq![e],
            Err(_) => Seq::empty(),
        }
    }
}

/// Extending a batch prefix by one pair extends its kept records by that
/// pair's record exactly when the pair parses.
proof fn lemma_kept_records_one_more(pairs: Seq<(Vec<u8>, Vec<u8>)>, i: int)
    requires
        0 <= i < pairs.len(),
    ensures
        kept_records(pairs.subrange(0, i + 1)) == match parse_spec(
            pairs[i].0@,
            pairs[i].1@,
        ) {
            Ok(e) => kept_records(pairs.subrange(0, i)).push(e),
            Err(_) => kept_records(pairs.subrange(0, i)),
        },
{
    let t = pairs.subrange(0, i + 1);
    assert(t.drop_last() =~= pairs.subrange(0, i));
    assert(t.last() == pairs[i]);
    match parse_spec(pairs[i].0@, pairs[i].1@) {
        Ok(e) => {
            assert(kept_records(t) =~= kept_records(pairs.subrange(0, i)).push(e));
        },
        Err(_) => {
            assert(kept_records(t) =~= kept_records(pairs.subrange(0, i)));
        },
    }
}

/// Parses a batch of element records. A record that fails a check is
/// skipped and the others proceed, in order; the count of dropped records
/// comes back beside the parsed ones, so a caller can treat a batch with
/// zero valid records at startup as the fatal configuration error it is.
/// Every returned record satisfies the element invariant.
#[verifier::loop_isolation(false)]
pub fn parse_records(pairs: &Vec<(Vec<u8>, Vec<u8>)>) -> (r: (Vec<OrbitalElements>, usize))
    ensures
        r.0@ == kept_records(pairs@),
        r.0@.len() + r.1 == pairs@.len(),
        forall|k: int| 0 <= k < r.0@.len() ==> (#[trigger] r.0@[k]).wf(),
{
    let mut out: Vec<OrbitalElements> = Vec::new();
    let mut dropped: usize = 0;
    let mut i: usize = 0;
    while i < pairs.len()
        invariant
            i <= pairs@.len(),
            out@ == kept_records(pairs@.subrange(0, i as int)),
            out@.len() + dropped == i,
            forall|k: int| 0 <= k < out@.len() ==> (#[trigger] out@[k]).wf(),
        decreases pairs@.len() - i,
    {
        proof {
            lemma_kept_records_one_more(pairs@, i as int);
        }
        let pair = &pairs[i];
        match parse_tle(pair.0.as_slice(), pair.1.as_slice()) {
            Ok(e) => out.push(e),
            Err(_) => dropped = dropped + 1,
        }
        i = i + 1;
    }
    proof {
        assert(pairs@.subrange(0, pairs@.len() as int) =~= pairs@);
    }
    (out, dropped)
}

} // verus!
