use vstd::prelude::*;

use crate::value::WireV;
use crate::value::WireValue;

verus! {

/// Bit pattern of the double `f64::from_str` yields for a text, `None` where
/// the text does not parse as a float; named, not spelled out: the accepted
/// grammar and the rounding rules take pages to state.
pub uninterp spec fn double_bits_of_text(s: Seq<char>) -> Option<u64>;

/// Relies on `str::parse` to a double (`f64::from_str`, which accepts decimal
/// and exponential notation and the special spellings of infinities and NaN)
/// and on `f64::to_bits`; acceptance and bit pattern are functions of the
/// characters alone.
#[verifier::external_body]
fn parse_double_bits(s: &str) -> (r: Option<u64>)
    ensures
        r == double_bits_of_text(s@),
{
    // no float type may be spelled in this crate's sources, so the wire
    // crate's Double variant fixes what `parse` parses to
    match s.parse().map(xmlrpc::Value::Double) {
        Ok(xmlrpc::Value::Double(d)) => Some(d.to_bits()),
        _ => None,
    }
}

/// What parsing a boolean accepts: exactly the two canonical tokens.
pub open spec fn spec_parse_bool(s: Seq<char>) -> Option<bool> {
    if s == "true"@ {
        Some(true)
    } else if s == "false"@ {
        Some(false)
    } else {
        None
    }
}

fn parse_bool(s: &str) -> (r: Option<bool>)
    ensures
        r == spec_parse_bool(s@),
{
    let v = s.to_owned();
    if v == String::from_str("true") {
        Some(true)
    } else if v == String::from_str("false") {
        Some(false)
    } else {
        None
    }
}

pub open spec fn is_digit(c: char) -> bool {
    '0' as int <= c as int && c as int <= '9' as int
}

pub open spec fn digit_val(c: char) -> int {
    c as int - '0' as int
}

/// Value of a run of decimal digits, most significant first.
pub open spec fn digits_val(s: Seq<char>) -> int
    decreases s,
{
    if s.len() == 0 {
        0
    } else {
        digits_val(s.drop_last()) * 10 + digit_val(s.last())
    }
}

pub open spec fn all_digits(s: Seq<char>) -> bool {
    forall|i: int| 0 <= i < s.len() ==> is_digit(s[i])
}

/// What parsing a signed 64-bit integer accepts: an optional leading `+` or
/// `-` followed by one or more decimal digits, no separators, the value
/// within the i64 range.
pub open spec fn spec_parse_i64(s: Seq<char>) -> Option<i64> {
    let ds = if s.len() > 0 && (s[0] == '+' || s[0] == '-') {
        s.drop_first()
    } else {
        s
    };
    let v: int = if s.len() > 0 && s[0] == '-' {
        -digits_val(ds)
    } else {
        digits_val(ds)
    };
    if ds.len() > 0 && all_digits(ds) {
        if i64::MIN <= v <= i64::MAX {
            Some(v as i64)
        } else {
            None
        }
    } else {
        None
    }
}

proof fn lemma_digits_val_nonneg(s: Seq<char>)
    requires
        all_digits(s),
    ensures
        digits_val(s) >= 0,
    decreases s,
{
    if s.len() > 0 {
        assert(all_digits(s.drop_last()));
        lemma_digits_val_nonneg(s.drop_last());
    }
}

/// Parse a signed 64-bit integer exactly as `spec_parse_i64` describes.
pub fn parse_i64(s: &str) -> (r: Option<i64>)
    ensures
        r == spec_parse_i64(s@),
{
    let n = s.unicode_len();
    if n == 0 {
        return None;
    }
    let c0 = s.get_char(0);
    let neg = c0 == '-';
    let has_sign = neg || c0 == '+';
    let start: usize = if has_sign {
        1
    } else {
        0
    };
    if start >= n {
        // a bare sign has no digits
        return None;
    }
    let ghost ds = if has_sign {
        s@.drop_first()
    } else {
        s@
    };
    proof {
        assert(ds =~= s@.subrange(start as int, n as int));
    }
    let mut i: usize = start;
    let mut acc: u64 = 0;
    let mut sat = false;
    #[verifier::loop_isolation(false)]
    while i < n
        invariant
            start <= i <= n,
            forall|j: int| start <= j < i ==> is_digit(s@[j]),
            !sat ==> acc == digits_val(s@.subrange(start as int, i as int)) && acc
                <= 0x8000_0000_0000_0000u64,
            sat ==> digits_val(s@.subrange(start as int, i as int)) > 0x8000_0000_0000_0000u64,
        decreases n - i,
    {
        let c = s.get_char(i);
        let u = c as u32;
        if u < 48 || u > 57 {
            proof {
                assert(ds[i - start] == s@[i as int]);
                assert(!is_digit(ds[i - start]));
            }
            return None;
        }
        let d: u64 = (u - 48) as u64;
        proof {
            let p0 = s@.subrange(start as int, i as int);
            let p1 = s@.subrange(start as int, i as int + 1);
            assert(p1.drop_last() =~= p0);
            assert(p1.last() == s@[i as int]);
            assert(digits_val(p1) == digits_val(p0) * 10 + d);
            if sat {
                assert(digits_val(p0) * 10 >= digits_val(p0)) by (nonlinear_arith)
                    requires
                        digits_val(p0) >= 0,
                ;
            }
        }
        if !sat {
            let wide: u128 = (acc as u128) * 10 + (d as u128);
            if wide > 0x8000_0000_0000_0000u128 {
                sat = true;
            } else {
                acc = wide as u64;
            }
        }
        i += 1;
    }
    proof {
        assert(s@.subrange(start as int, n as int) =~= ds);
        assert forall|k: int| 0 <= k < ds.len() implies is_digit(ds[k]) by {
            assert(ds[k] == s@[start + k]);
        }
        assert(all_digits(ds));
        lemma_digits_val_nonneg(ds);
    }
    if sat {
        // magnitude above 2^63: out of range for either sign
        return None;
    }
    if neg {
        if acc == 0x8000_0000_0000_0000u64 {
            Some(i64::MIN)
        } else {
            Some(-(acc as i64))
        }
    } else {
        if acc <= 0x7fff_ffff_ffff_ffffu64 {
            Some(acc as i64)
        } else {
            None
        }
    }
}

/// What the heuristic yields: the first parse that succeeds, in the fixed
/// order boolean, then 64-bit integer, then double, else the literal string.
pub open spec fn spec_infer(s: Seq<char>) -> WireV {
    match spec_parse_bool(s) {
        Some(b) => WireV::Bool(b),
        None => match spec_parse_i64(s) {
            Some(i) => WireV::Int64(i as int),
            None => match double_bits_of_text(s) {
                Some(bits) => WireV::Double(bits),
                None => WireV::Str(s),
            },
        },
    }
}

/// Convert a raw string to a typed wire value by inferring its type: the
/// canonical boolean tokens win first, then a signed 64-bit integer, then a
/// double; anything else stays the literal string, unmodified.
pub fn as_value_heuristic(value: &str) -> (r: WireValue)
    ensures
        r@ == spec_infer(value@),
{
    if let Some(b) = parse_bool(value) {
        return WireValue::Bool(b);
    }
    if let Some(i) = parse_i64(value) {
        return WireValue::Int64(i);
    }
    if let Some(bits) = parse_double_bits(value) {
        return WireValue::Double(bits);
    }
    WireValue::Str(value.to_owned())
}

} // verus!
