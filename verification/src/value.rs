//! Metric values and their exact textual formatting.
//!
//! A sample's value is an exact decimal (a sign, a mantissa and a power of
//! ten) or one of the three non-finite markers.  Every value the collectors
//! produce — tick counts divided by the clock rate, sector counts times the
//! sector size, millisecond and nanosecond durations — is such a decimal, so
//! formatting is exact: integers render without a decimal point and other
//! values render with their fractional digits, trailing zeros removed.

use vstd::prelude::*;

verus! {

/// The numeric value of one sample: `(-1)^negative * mantissa / 10^scale`,
/// or an infinity, or not-a-number.
#[derive(Debug, Clone, Copy, PartialEq, Eq, Structural)]
pub enum MetricValue {
    Finite { negative: bool, mantissa: u128, scale: u32 },
    PosInf,
    NegInf,
    NaN,
}

impl MetricValue {
    /// The non-negative whole number `n`.
    pub fn whole(n: u64) -> (r: MetricValue)
        ensures
            r == (MetricValue::Finite { negative: false, mantissa: n as u128, scale: 0 }),
    {
        MetricValue::Finite { negative: false, mantissa: n as u128, scale: 0 }
    }

    /// The non-negative decimal `mantissa / 10^scale`.
    pub fn decimal(mantissa: u64, scale: u32) -> (r: MetricValue)
        ensures
            r == (MetricValue::Finite { negative: false, mantissa: mantissa as u128, scale }),
    {
        MetricValue::Finite { negative: false, mantissa: mantissa as u128, scale }
    }
}

// ---------------------------------------------------------------------------
// Digit strings
// ---------------------------------------------------------------------------

/// The character for the digit `d`.
pub open spec fn digit_to_char(d: int) -> char {
    if d == 0 {
        '0'
    } else if d == 1 {
        '1'
    } else if d == 2 {
        '2'
    } else if d == 3 {
        '3'
    } else if d == 4 {
        '4'
    } else if d == 5 {
        '5'
    } else if d == 6 {
        '6'
    } else if d == 7 {
        '7'
    } else if d == 8 {
        '8'
    } else {
        '9'
    }
}

/// The decimal digit string of `n`, most significant digit first, without
/// leading zeros (`0` itself is the single character `0`).
pub open spec fn spec_digits(n: nat) -> Seq<char>
    decreases n,
{
    if n < 10 {
        seq![digit_to_char(n as int)]
    } else {
        spec_digits(n / 10).push(digit_to_char((n % 10) as int))
    }
}

/// One digit as a string slice.
fn digit_str(d: u128) -> (r: &'static str)
    requires
        d < 10,
    ensures
        r@ == seq![digit_to_char(d as int)],
{
    if d == 0 {
        proof {
            reveal_strlit("0");
            assert("0"@ =~= seq![digit_to_char(0)]);
        }
        "0"
    } else if d == 1 {
        proof {
            reveal_strlit("1");
            assert("1"@ =~= seq![digit_to_char(1)]);
        }
        "1"
    } else if d == 2 {
        proof {
            reveal_strlit("2");
            assert("2"@ =~= seq![digit_to_char(2)]);
        }
        "2"
    } else if d == 3 {
        proof {
            reveal_strlit("3");
            assert("3"@ =~= seq![digit_to_char(3)]);
        }
        "3"
    } else if d == 4 {
        proof {
            reveal_strlit("4");
            assert("4"@ =~= seq![digit_to_char(4)]);
        }
        "4"
    } else if d == 5 {
        proof {
            reveal_strlit("5");
            assert("5"@ =~= seq![digit_to_char(5)]);
        }
        "5"
    } else if d == 6 {
        proof {
            reveal_strlit("6");
            assert("6"@ =~= seq![digit_to_char(6)]);
        }
        "6"
    } else if d == 7 {
        proof {
            reveal_strlit("7");
            assert("7"@ =~= seq![digit_to_char(7)]);
        }
        "7"
    } else if d == 8 {
        proof {
            reveal_strlit("8");
            assert("8"@ =~= seq![digit_to_char(8)]);
        }
        "8"
    } else {
        proof {
            reveal_strlit("9");
            assert("9"@ =~= seq![digit_to_char(9)]);
        }
        "9"
    }
}

/// Append the digit string of `n` to `out`.
fn push_digits(out: &mut String, n: u128)
    ensures
        final(out)@ == old(out)@ + spec_digits(n as nat),
    decreases n,
{
    if n < 10 {
        let ghost pre = out@;
        out.append(digit_str(n));
        proof {
            assert(pre + seq![digit_to_char(n as int)] =~= pre + spec_digits(n as nat));
        }
    } else {
        let ghost pre = out@;
        push_digits(out, n / 10);
        out.append(digit_str(n % 10));
        proof {
            assert((pre + spec_digits((n / 10) as nat)) + seq![digit_to_char((n % 10) as int)]
                =~= pre + spec_digits(n as nat));
        }
    }
}

/// The decimal digit string of `n`.
pub fn u128_string(n: u128) -> (r: String)
    ensures
        r@ == spec_digits(n as nat),
{
    let mut out = String::new();
    push_digits(&mut out, n);
    proof {
        assert(Seq::<char>::empty() + spec_digits(n as nat) =~= spec_digits(n as nat));
    }
    out
}

/// The decimal digit string of `n`.
pub fn u64_string(n: u64) -> (r: String)
    ensures
        r@ == spec_digits(n as nat),
{
    u128_string(n as u128)
}

// ---------------------------------------------------------------------------
// Value formatting
// ---------------------------------------------------------------------------

/// `(mantissa, scale)` with trailing fractional zeros removed: while the
/// scale is positive and the mantissa ends in `0`, both shrink.
pub open spec fn spec_normalize(m: nat, s: nat) -> (nat, nat)
    decreases s,
{
    if s > 0 && m % 10 == 0 {
        spec_normalize(m / 10, (s - 1) as nat)
    } else {
        (m, s)
    }
}

/// `k` zero characters.
pub open spec fn zero_chars(k: nat) -> Seq<char> {
    Seq::new(k, |i| '0')
}

/// The rendering of the finite value `(-1)^negative * mantissa / 10^scale`:
/// an optional minus sign, the integer digits, and — when a fractional part
/// remains after normalization — a point and the fractional digits.
pub open spec fn spec_format_finite(negative: bool, mantissa: nat, scale: nat) -> Seq<char> {
    let norm = spec_normalize(mantissa, scale);
    let sign: Seq<char> = if negative && mantissa > 0 {
        seq!['-']
    } else {
        Seq::empty()
    };
    let ds = spec_digits(norm.0);
    if norm.1 == 0 {
        sign + ds
    } else if ds.len() <= norm.1 {
        sign + seq!['0', '.'] + zero_chars((norm.1 - ds.len()) as nat) + ds
    } else {
        sign + ds.take(ds.len() - norm.1) + seq!['.'] + ds.skip(ds.len() - norm.1)
    }
}

/// The rendering of a metric value: `NaN`, `+Inf` and `-Inf` by name, and a
/// finite decimal by [`spec_format_finite`].
pub open spec fn spec_format_value(v: MetricValue) -> Seq<char> {
    match v {
        MetricValue::Finite { negative, mantissa, scale } => spec_format_finite(
            negative,
            mantissa as nat,
            scale as nat,
        ),
        MetricValue::PosInf => "+Inf"@,
        MetricValue::NegInf => "-Inf"@,
        MetricValue::NaN => "NaN"@,
    }
}

/// Render a metric value exactly as [`spec_format_value`] describes.
pub fn format_value(v: &MetricValue) -> (r: String)
    ensures
        r@ == spec_format_value(*v),
{
    match v {
        MetricValue::NaN => "NaN".to_owned(),
        MetricValue::PosInf => "+Inf".to_owned(),
        MetricValue::NegInf => "-Inf".to_owned(),
        MetricValue::Finite { negative, mantissa, scale } => {
            let neg = *negative;
            let m0 = *mantissa;
            let s0 = *scale;
            let mut m = m0;
            let mut sc = s0;
            while sc > 0 && m % 10 == 0
                invariant
                    spec_normalize(m as nat, sc as nat) == spec_normalize(m0 as nat, s0 as nat),
                decreases sc,
            {
                m = m / 10;
                sc = sc - 1;
            }
            let ghost norm = spec_normalize(m0 as nat, s0 as nat);
            proof {
                assert(norm == (m as nat, sc as nat));
            }
            let ghost sign: Seq<char> = if neg && m0 > 0 {
                seq!['-']
            } else {
                Seq::<char>::empty()
            };
            let digs = u128_string(m);
            let dl: usize = digs.as_str().unicode_len();
            let ghost ds = spec_digits(m as nat);
            let mut out = String::new();
            if neg && m0 > 0 {
                out.append("-");
                proof {
                    reveal_strlit("-");
                    assert(out@ =~= sign);
                }
            } else {
                proof {
                    assert(out@ =~= sign);
                }
            }
            if sc == 0 {
                out.append(digs.as_str());
                proof {
                    assert(out@ =~= spec_format_finite(neg, m0 as nat, s0 as nat));
                }
            } else {
                let scu: usize = sc as usize;
                if dl <= scu {
                    out.append("0.");
                    proof {
                        reveal_strlit("0.");
                        assert("0."@ =~= seq!['0', '.']);
                        assert(out@ =~= sign + seq!['0', '.']);
                    }
                    let pad: usize = scu - dl;
                    let mut z: usize = 0;
                    proof {
                        assert(zero_chars(0) =~= Seq::<char>::empty());
                        assert(out@ =~= sign + seq!['0', '.'] + zero_chars(0));
                    }
                    while z < pad
                        invariant
                            0 <= z <= pad,
                            out@ == sign + seq!['0', '.'] + zero_chars(z as nat),
                        decreases pad - z,
                    {
                        out.append("0");
                        z = z + 1;
                        proof {
                            reveal_strlit("0");
                            assert((sign + seq!['0', '.'] + zero_chars((z - 1) as nat)) + "0"@
                                =~= sign + seq!['0', '.'] + zero_chars(z as nat));
                        }
                    }
                    out.append(digs.as_str());
                    proof {
                        assert((sign + seq!['0', '.'] + zero_chars(pad as nat)) + ds =~= sign
                            + seq!['0', '.'] + zero_chars((sc as nat - ds.len()) as nat) + ds);
                        assert(out@ =~= spec_format_finite(neg, m0 as nat, s0 as nat));
                    }
                } else {
                    let head = digs.as_str().substring_char(0, dl - scu);
                    let tail = digs.as_str().substring_char(dl - scu, dl);
                    proof {
                        assert(head@ =~= ds.take(ds.len() - sc as nat));
                        assert(tail@ =~= ds.skip(ds.len() - sc as nat));
                    }
                    out.append(head);
                    out.append(".");
                    out.append(tail);
                    proof {
                        reveal_strlit(".");
                        assert("."@ =~= seq!['.']);
                        assert(((sign + head@) + "."@) + tail@ =~= sign + ds.take(
                            ds.len() - sc as nat,
                        ) + seq!['.'] + ds.skip(ds.len() - sc as nat));
                        assert(out@ =~= spec_format_finite(neg, m0 as nat, s0 as nat));
                    }
                }
            }
            out
        },
    }
}

} // verus!
