use vstd::arithmetic::div_mod::*;
use vstd::arithmetic::power2::*;
use vstd::prelude::*;

use crate::json::{Json, JsonV};

verus! {

// Numbers are compared as doubles: a float by the value its IEEE-754 bits encode, an
// integer by the double nearest to it (what converting it to `f64` gives).
/// The value of a number: `Finite(m, e)` is m * 2^e.
pub enum NumV {
    Finite(int, int),
    PosInf,
    NegInf,
    NaN,
}

/// The value the bits of an `f64` encode.
pub open spec fn float_num(bits: u64) -> NumV {
    let neg = bits >= 0x8000_0000_0000_0000u64;
    let biased = (bits % 0x8000_0000_0000_0000u64) / 0x10_0000_0000_0000u64;
    let frac = bits % 0x10_0000_0000_0000u64;
    if biased == 2047 {
        if frac == 0 {
            if neg {
                NumV::NegInf
            } else {
                NumV::PosInf
            }
        } else {
            NumV::NaN
        }
    } else {
        let m: int = if biased == 0 {
            frac as int
        } else {
            frac + 0x10_0000_0000_0000int
        };
        let e: int = if biased == 0 {
            -1074
        } else {
            biased - 1075
        };
        NumV::Finite(
            if neg {
                -m
            } else {
                m
            },
            e,
        )
    }
}

/// How many low bits of `m` a double cannot hold: none below 2^53, else as many as
/// bring it below 2^53.
pub open spec fn dropped_bits(m: nat) -> nat
    decreases m,
{
    if m < 0x20_0000_0000_0000 {
        0
    } else {
        1 + dropped_bits(m / 2)
    }
}

/// `m` rounded to the nearest value a double holds, ties to the even mantissa, as
/// mantissa and binary exponent.
pub open spec fn nearest_double(m: nat) -> (int, int) {
    let s = dropped_bits(m);
    if s == 0 {
        (m as int, 0)
    } else {
        let q = m / pow2(s);
        let r = m % pow2(s);
        let half = pow2((s - 1) as nat);
        let up = r > half || (r == half && q % 2 == 1);
        (if up {
            q + 1int
        } else {
            q as int
        }, s as int)
    }
}

/// The double nearest to an integer, as a number.
pub open spec fn int_num(i: int) -> NumV {
    let d = nearest_double((if i < 0 {
        -i
    } else {
        i
    }) as nat);
    NumV::Finite(
        if i < 0 {
            -d.0
        } else {
            d.0
        },
        d.1,
    )
}

/// The value of a JSON number as a double; `None` for anything else.
pub open spec fn num_of(v: JsonV) -> Option<NumV> {
    match v {
        JsonV::Int(i) => Some(int_num(i)),
        JsonV::Float(_, b) => Some(float_num(b)),
        _ => None,
    }
}

/// `m * 2^(e - base)`, for `e >= base`.
pub open spec fn scaled(m: int, e: int, base: int) -> int {
    m * pow2((e - base) as nat)
}

/// Whether `x` is less than `y`. Nothing is less or greater than NaN.
pub open spec fn num_lt(x: NumV, y: NumV) -> bool {
    match (x, y) {
        (NumV::NaN, _) => false,
        (_, NumV::NaN) => false,
        (NumV::NegInf, NumV::NegInf) => false,
        (NumV::NegInf, _) => true,
        (NumV::PosInf, _) => false,
        (_, NumV::PosInf) => true,
        (_, NumV::NegInf) => false,
        (NumV::Finite(a, ea), NumV::Finite(b, eb)) => {
            let base = if ea <= eb {
                ea
            } else {
                eb
            };
            scaled(a, ea, base) < scaled(b, eb, base)
        },
    }
}

/// A number taken apart: kind (0 finite, 1 +inf, 2 -inf, 3 NaN), sign, magnitude and
/// binary exponent.
struct Parts {
    kind: u8,
    neg: bool,
    mag: u128,
    exp: i64,
}

spec fn parts_num(p: Parts) -> NumV {
    if p.kind == 0 {
        NumV::Finite(
            if p.neg {
                -(p.mag as int)
            } else {
                p.mag as int
            },
            p.exp as int,
        )
    } else if p.kind == 1 {
        NumV::PosInf
    } else if p.kind == 2 {
        NumV::NegInf
    } else {
        NumV::NaN
    }
}

spec fn parts_ok(p: Parts) -> bool {
    &&& p.kind <= 3
    &&& p.mag < 0x1_0000_0000_0000_0000u128
    &&& -1074 <= p.exp <= 971
}

/// The double nearest to `m`; see `nearest_double`.
fn round_to_double(m: u128) -> (r: (u128, i64))
    requires
        m < 0x1_0000_0000_0000_0000u128,
    ensures
        r.0 as int == nearest_double(m as nat).0,
        r.1 as int == nearest_double(m as nat).1,
        r.0 <= 0x20_0000_0000_0000u128,
        0 <= r.1 <= 11,
{
    proof {
        lemma2_to64();
        lemma2_to64_rest();
    }
    let mut q: u128 = m;
    let mut low: u128 = 0;
    let mut p: u128 = 1;
    let mut s: u32 = 0;
    proof {
        assert(pow2(0) == 1);
    }
    while q >= 0x20_0000_0000_0000u128
        invariant
            m < 0x1_0000_0000_0000_0000u128,
            s <= 11,
            p == pow2(s as nat),
            q == m as int / (p as int),
            low == m as int % (p as int),
            dropped_bits(m as nat) == s + dropped_bits(q as nat),
            pow2(11) == 2048,
            pow2(53) == 0x20_0000_0000_0000,
        decreases q,
    {
        proof {
            lemma_pow2_pos(s as nat);
            lemma_fundamental_div_mod(m as int, p as int);
            assert(q * p <= m) by (nonlinear_arith)
                requires
                    m == p * q + low,
                    low >= 0,
                    p > 0,
                    q >= 0,
            ;
            assert(p < 2048) by (nonlinear_arith)
                requires
                    q >= 0x20_0000_0000_0000,
                    q * p <= m,
                    m < 0x1_0000_0000_0000_0000,
                    p > 0,
            ;
            if s >= 11 {
                if s > 11 {
                    lemma_pow2_strictly_increases(11, s as nat);
                }
                assert(false);
            }
            lemma_pow2_unfold((s + 1) as nat);
            lemma_div_denominator(m as int, p as int, 2);
            lemma_mod_breakdown(m as int, p as int, 2);
            assert(dropped_bits(q as nat) == 1 + dropped_bits((q / 2) as nat));
        }
        low = low + p * (q % 2);
        q = q / 2;
        p = p * 2;
        s = s + 1;
    }
    proof {
        assert(dropped_bits(q as nat) == 0);
    }
    if s == 0 {
        proof {
            assert(q == m) by {
                lemma_div_basics(m as int);
            }
        }
        return (m, 0);
    }
    let half = p / 2;
    proof {
        lemma_pow2_unfold(s as nat);
    }
    let up = low > half || (low == half && q % 2 == 1);
    let r = if up {
        q + 1
    } else {
        q
    };
    (r, s as i64)
}

fn parts_of(v: &Json) -> (r: Option<Parts>)
    ensures
        match r {
            Some(p) => parts_ok(p) && num_of(v@) == Some(parts_num(p)),
            None => num_of(v@) is None,
        },
{
    match v {
        Json::Int(i) => {
            let neg = *i < 0;
            let mag: u128 = if neg {
                (-(*i as i128)) as u128
            } else {
                *i as u128
            };
            let (dm, de) = round_to_double(mag);
            Some(Parts { kind: 0, neg, mag: dm, exp: de })
        },
        Json::UInt(u) => {
            let (dm, de) = round_to_double(*u as u128);
            Some(Parts { kind: 0, neg: false, mag: dm, exp: de })
        },
        Json::Float(_, b) => {
            let bits = *b;
            let neg = bits >= 0x8000_0000_0000_0000u64;
            let biased = (bits % 0x8000_0000_0000_0000u64) / 0x10_0000_0000_0000u64;
            let frac = bits % 0x10_0000_0000_0000u64;
            proof {
                assert(biased <= 2047) by (nonlinear_arith)
                    requires
                        biased == (bits % 0x8000_0000_0000_0000u64) / 0x10_0000_0000_0000u64,
                ;
            }
            if biased == 2047 {
                if frac == 0 {
                    Some(Parts { kind: if neg { 2 } else { 1 }, neg, mag: 0, exp: 0 })
                } else {
                    Some(Parts { kind: 3, neg, mag: 0, exp: 0 })
                }
            } else {
                let m: u128 = if biased == 0 {
                    frac as u128
                } else {
                    (frac as u128) + 0x10_0000_0000_0000u128
                };
                let e: i64 = if biased == 0 {
                    -1074
                } else {
                    (biased as i64) - 1075
                };
                Some(Parts { kind: 0, neg, mag: m, exp: e })
            }
        },
        _ => None,
    }
}

/// 2^d, for d < 64.
fn pow2_exec(d: u32) -> (r: u128)
    requires
        d < 64,
    ensures
        r == pow2(d as nat),
        r <= 0x8000_0000_0000_0000u128,
{
    proof {
        lemma2_to64();
        lemma2_to64_rest();
    }
    let mut p: u128 = 1;
    let mut i: u32 = 0;
    while i < d
        invariant
            i <= d < 64,
            p == pow2(i as nat),
            p <= pow2(63),
            pow2(63) == 0x8000_0000_0000_0000u128,
        decreases d - i,
    {
        proof {
            lemma_pow2_unfold((i + 1) as nat);
            if i + 1 < 63 {
                lemma_pow2_strictly_increases((i + 1) as nat, 63);
            }
        }
        p = p * 2;
        i = i + 1;
    }
    p
}

/// Signed comparison of -mag/+mag values.
fn signed_lt(na: bool, ma: u128, nb: bool, mb: u128) -> (r: bool)
    ensures
        r == ((if na {
            -(ma as int)
        } else {
            ma as int
        }) < (if nb {
            -(mb as int)
        } else {
            mb as int
        })),
{
    if na && nb {
        mb < ma
    } else if na {
        !(ma == 0 && mb == 0)
    } else if nb {
        false
    } else {
        ma < mb
    }
}

proof fn lemma_big_shift(m: int, d: nat, other: int)
    requires
        m != 0,
        d >= 64,
        -0x1_0000_0000_0000_0000int < other < 0x1_0000_0000_0000_0000int,
    ensures
        (m * pow2(d) < other) == (m < 0),
        m * pow2(d) != other,
{
    lemma2_to64();
    if d > 64 {
        lemma_pow2_strictly_increases(64, d);
    }
    let p = pow2(d);
    assert(p >= 0x1_0000_0000_0000_0000int);
    if m > 0 {
        assert(m * p >= p) by (nonlinear_arith)
            requires
                m >= 1,
                p >= 0,
        ;
    } else {
        assert(m * p <= -p) by (nonlinear_arith)
            requires
                m <= -1,
                p >= 0,
        ;
    }
}

fn finite_lt(a: &Parts, b: &Parts) -> (r: bool)
    requires
        parts_ok(*a),
        parts_ok(*b),
        a.kind == 0,
        b.kind == 0,
    ensures
        r == num_lt(parts_num(*a), parts_num(*b)),
{
    let ghost av: int = if a.neg {
        -(a.mag as int)
    } else {
        a.mag as int
    };
    let ghost bv: int = if b.neg {
        -(b.mag as int)
    } else {
        b.mag as int
    };
    proof {
        lemma2_to64();
    }
    if a.exp >= b.exp {
        let d = (a.exp - b.exp) as u32;
        proof {
            assert(((b.exp as int) - (b.exp as int)) as nat == 0);
            assert(pow2(0) == 1);
            assert(scaled(bv, b.exp as int, b.exp as int) == bv * 1);
        }
        if a.mag == 0 {
            proof {
                assert(av == 0);
                assert(scaled(av, a.exp as int, b.exp as int) == 0);
            }
            return signed_lt(false, 0, b.neg, b.mag);
        }
        if d >= 64 {
            proof {
                lemma_big_shift(av, d as nat, bv);
            }
            return a.neg;
        }
        let p = pow2_exec(d);
        proof {
            assert(a.mag * p < 0x8000_0000_0000_0000_0000_0000_0000_0000u128) by (nonlinear_arith)
                requires
                    a.mag < 0x1_0000_0000_0000_0000u128,
                    p <= 0x8000_0000_0000_0000u128,
            ;
        }
        let l = a.mag * p;
        proof {
            assert(scaled(av, a.exp as int, b.exp as int) == (if a.neg {
                -(l as int)
            } else {
                l as int
            })) by (nonlinear_arith)
                requires
                    av == (if a.neg {
                        -(a.mag as int)
                    } else {
                        a.mag as int
                    }),
                    l == a.mag * p,
                    p == pow2(d as nat),
                    d == a.exp - b.exp,
            ;
        }
        signed_lt(a.neg, l, b.neg, b.mag)
    } else {
        let d = (b.exp - a.exp) as u32;
        proof {
            assert(((a.exp as int) - (a.exp as int)) as nat == 0);
            assert(pow2(0) == 1);
            assert(scaled(av, a.exp as int, a.exp as int) == av * 1);
        }
        if b.mag == 0 {
            proof {
                assert(bv == 0);
                assert(scaled(bv, b.exp as int, a.exp as int) == 0);
            }
            return signed_lt(a.neg, a.mag, false, 0);
        }
        if d >= 64 {
            proof {
                lemma_big_shift(bv, d as nat, av);
                assert(scaled(bv, b.exp as int, a.exp as int) == bv * pow2(d as nat));
                assert(bv * pow2(d as nat) != av);
            }
            return !b.neg;
        }
        let p = pow2_exec(d);
        proof {
            assert(b.mag * p < 0x8000_0000_0000_0000_0000_0000_0000_0000u128) by (nonlinear_arith)
                requires
                    b.mag < 0x1_0000_0000_0000_0000u128,
                    p <= 0x8000_0000_0000_0000u128,
            ;
        }
        let l = b.mag * p;
        proof {
            assert(scaled(bv, b.exp as int, a.exp as int) == (if b.neg {
                -(l as int)
            } else {
                l as int
            })) by (nonlinear_arith)
                requires
                    bv == (if b.neg {
                        -(b.mag as int)
                    } else {
                        b.mag as int
                    }),
                    l == b.mag * p,
                    p == pow2(d as nat),
                    d == b.exp - a.exp,
            ;
        }
        signed_lt(a.neg, a.mag, b.neg, l)
    }
}

/// Whether `a` is a number less than the number `b`; `None` when either is not a
/// number.
pub fn number_lt(a: &Json, b: &Json) -> (r: Option<bool>)
    ensures
        match r {
            Some(x) => num_of(a@) matches Some(na) && num_of(b@) matches Some(nb) && x == num_lt(
                na,
                nb,
            ),
            None => num_of(a@) is None || num_of(b@) is None,
        },
{
    let pa = match parts_of(a) {
        Some(p) => p,
        None => {
            return None;
        },
    };
    let pb = match parts_of(b) {
        Some(p) => p,
        None => {
            return None;
        },
    };
    if pa.kind == 3 || pb.kind == 3 {
        return Some(false);
    }
    if pa.kind == 2 {
        return Some(pb.kind != 2);
    }
    if pa.kind == 1 {
        return Some(false);
    }
    if pb.kind == 1 {
        return Some(true);
    }
    if pb.kind == 2 {
        return Some(false);
    }
    Some(finite_lt(&pa, &pb))
}

} // verus!
