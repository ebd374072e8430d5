//! JSON values as the logic reads them.
//!
//! A number that fits an `i64` is [`Json::Int`]; any other is [`Json::Float`], the bits of the nearest
//! double. An object is the list of its members; a key is read at its first occurrence.

use vstd::arithmetic::power2::{lemma_pow2_pos, lemma_pow2_unfold, pow2};
use vstd::prelude::*;

use crate::text;

verus! {

/// A JSON value.
#[derive(Debug, PartialEq)]
pub enum Json {
    Null,
    Bool(bool),
    Int(i64),
    /// The IEEE 754 bits of a double.
    Float(u64),
    Str(String),
    Array(Vec<Json>),
    Object(Vec<(String, Json)>),
}

/// The value of an object's member, at its first occurrence.
pub open spec fn member(members: Seq<(String, Json)>, key: Seq<char>) -> Option<Json>
    decreases members.len(),
{
    if members.len() == 0 {
        None
    } else if members[0].0@ == key {
        Some(members[0].1)
    } else {
        member(members.drop_first(), key)
    }
}

/// The text of a string value.
pub open spec fn str_of(value: Option<Json>) -> Option<Seq<char>> {
    match value {
        Some(Json::Str(s)) => Some(s@),
        _ => None,
    }
}

/// The text of a string member.
pub open spec fn member_str(members: Seq<(String, Json)>, key: Seq<char>) -> Option<Seq<char>> {
    str_of(member(members, key))
}

/// An object's member.
pub fn get<'a>(members: &'a Vec<(String, Json)>, key: &str) -> (r: Option<&'a Json>)
    ensures
        r is Some <==> member(members@, key@) is Some,
        r matches Some(value) ==> member(members@, key@) == Some(*value),
{
    let mut i: usize = 0;
    assert(members@.skip(0) =~= members@);
    while i < members.len()
        invariant
            i <= members@.len(),
            member(members@, key@) == member(members@.skip(i as int), key@),
        decreases members@.len() - i,
    {
        assert(members@.skip(i as int)[0] == members@[i as int]);
        if text::same(members[i].0.as_str(), key) {
            return Some(&members[i].1);
        }
        assert(members@.skip(i as int).drop_first() =~= members@.skip(i + 1));
        i = i + 1;
    }
    None
}

/// A string member's text.
pub fn get_str<'a>(members: &'a Vec<(String, Json)>, key: &str) -> (r: Option<&'a str>)
    ensures
        text::opt_str_view(r) == member_str(members@, key@),
{
    match get(members, key) {
        Some(Json::Str(s)) => Some(s.as_str()),
        _ => None,
    }
}

/// The integer a double's bits write, or `None` for a fraction, an infinity or a NaN.
pub open spec fn float_integer(bits: u64) -> Option<int> {
    let negative = bits >= 0x8000_0000_0000_0000;
    let exponent = bits as int / 0x10_0000_0000_0000 % 0x800;
    let fraction = bits as int % 0x10_0000_0000_0000;
    let magnitude = if exponent == 0x7ff {
        None
    } else if exponent == 0 {
        if fraction == 0 {
            Some(0int)
        } else {
            None
        }
    } else {
        let significand = 0x10_0000_0000_0000 + fraction;
        if exponent >= 1075 {
            Some(significand * pow2((exponent - 1075) as nat))
        } else if significand % pow2((1075 - exponent) as nat) as int == 0 {
            Some(significand / pow2((1075 - exponent) as nat) as int)
        } else {
            None
        }
    };
    match magnitude {
        Some(m) => Some(if negative {
            -m
        } else {
            m
        }),
        None => None,
    }
}

/// The `i64` a double stands for: the integer that it writes, where an `i64` holds it.
pub open spec fn float_to_i64(bits: u64) -> Option<i64> {
    match float_integer(bits) {
        Some(v) => if -0x8000_0000_0000_0000 <= v < 0x8000_0000_0000_0000 {
            Some(v as i64)
        } else {
            None
        },
        None => None,
    }
}

fn power_of_two(k: u64) -> (r: u64)
    requires
        k <= 52,
    ensures
        r == pow2(k as nat),
        r <= 0x10_0000_0000_0000,
{
    let mut r: u64 = 1;
    let mut i: u64 = 0;
    proof {
        vstd::arithmetic::power2::lemma2_to64();
        vstd::arithmetic::power2::lemma2_to64_rest();
    }
    while i < k
        invariant
            i <= k <= 52,
            r == pow2(i as nat),
            pow2(52) == 0x10_0000_0000_0000,
            i <= 52 ==> pow2(i as nat) <= pow2(52),
        decreases k - i,
    {
        proof {
            lemma_pow2_unfold((i + 1) as nat);
            if i + 1 < 52 {
                vstd::arithmetic::power2::lemma_pow2_strictly_increases((i + 1) as nat, 52);
            }
        }
        r = r * 2;
        i = i + 1;
    }
    r
}

/// The `i64` a double's bits stand for.
pub fn float_as_i64(bits: u64) -> (r: Option<i64>)
    ensures
        r == float_to_i64(bits),
{
    let negative: bool = bits >= 0x8000_0000_0000_0000;
    let exponent: u64 = bits / 0x10_0000_0000_0000 % 0x800;
    let fraction: u64 = bits % 0x10_0000_0000_0000;
    if exponent == 0x7ff {
        return None;
    }
    if exponent == 0 {
        return if fraction == 0 {
            Some(0)
        } else {
            None
        };
    }
    let significand: u64 = 0x10_0000_0000_0000 + fraction;
    let magnitude: u128;
    if exponent >= 1075 {
        let k: u64 = exponent - 1075;
        if k > 11 {
            proof {
                vstd::arithmetic::power2::lemma2_to64();
                vstd::arithmetic::power2::lemma2_to64_rest();
                if k > 12 {
                    vstd::arithmetic::power2::lemma_pow2_strictly_increases(12, k as nat);
                }
                assert(significand * pow2(k as nat) >= 0x1_0000_0000_0000_0000)
                    by (nonlinear_arith)
                    requires
                        significand >= 0x10_0000_0000_0000,
                        pow2(k as nat) >= 4096,
                ;
            }
            return None;
        }
        let p: u64 = power_of_two(k);
        proof {
            vstd::arithmetic::power2::lemma2_to64();
            vstd::arithmetic::power2::lemma2_to64_rest();
            if k < 11 {
                vstd::arithmetic::power2::lemma_pow2_strictly_increases(k as nat, 11);
            }
            assert(significand * p <= 0x20_0000_0000_0000 * 2048) by (nonlinear_arith)
                requires
                    significand <= 0x20_0000_0000_0000,
                    p <= 2048,
            ;
        }
        magnitude = significand as u128 * p as u128;
    } else {
        let k: u64 = 1075 - exponent;
        if k > 52 {
            proof {
                vstd::arithmetic::power2::lemma2_to64();
                vstd::arithmetic::power2::lemma2_to64_rest();
                if k > 53 {
                    vstd::arithmetic::power2::lemma_pow2_strictly_increases(53, k as nat);
                }
                vstd::arithmetic::div_mod::lemma_small_mod(significand as nat, pow2(k as nat));
            }
            return None;
        }
        let p: u64 = power_of_two(k);
        proof {
            lemma_pow2_pos(k as nat);
        }
        if significand % p != 0 {
            return None;
        }
        magnitude = (significand / p) as u128;
    }
    if negative {
        if magnitude <= 0x8000_0000_0000_0000 {
            Some((-(magnitude as i128)) as i64)
        } else {
            None
        }
    } else if magnitude < 0x8000_0000_0000_0000 {
        Some(magnitude as i64)
    } else {
        None
    }
}

/// The `i64` a value coerces to: an integer, a numeral in a string (surrounding white space aside), or
/// an integral double in range.
pub open spec fn coerced_i64(value: Json) -> Option<i64> {
    match value {
        Json::Int(n) => Some(n),
        Json::Str(s) => match text::parsed_int(
            text::trimmed(s@),
            i64::MIN as int,
            i64::MAX as int,
        ) {
            Some(v) => Some(v as i64),
            None => None,
        },
        Json::Float(bits) => float_to_i64(bits),
        _ => None,
    }
}

/// Coerces a number or a numeric string to an `i64`. A protobuf structure carries every number as a
/// double, so an integral double is the form an integer arrives in over that wire.
pub fn json_to_i64(value: &Json) -> (r: Option<i64>)
    ensures
        r == coerced_i64(*value),
{
    match value {
        Json::Int(n) => Some(*n),
        Json::Str(s) => text::parse_i64(text::trim(s.as_str())),
        Json::Float(bits) => float_as_i64(*bits),
        _ => None,
    }
}

} // verus!
