//! How texts are trimmed, split, joined, ordered and read as numbers.

use vstd::arithmetic::power2::{lemma_pow2_pos, lemma_pow2_unfold, pow2};
use vstd::prelude::*;

use crate::json::{coerced_i64, float_integer, float_to_i64, member, Json};
use crate::text::{
    all_digits, contains_text, decimal, decimal_nat, digits_value, is_digit, is_white_space,
    joined, occurs_at, parsed_int, pieces, position_from, text_le, trimmed, trimmed_end,
    trimmed_start, without_trailing_slashes,
};

verus! {

/// The numeral of a number reads back as the number, in any range that holds it.
pub proof fn law_numeral_reads_back(n: int, lo: int, hi: int)
    requires
        lo <= n <= hi,
    ensures
        parsed_int(decimal(n), lo, hi) == Some(n),
{
    if n < 0 {
        lemma_digits_of((-n) as nat);
        assert(decimal(n).skip(1) =~= decimal_nat((-n) as nat));
    } else {
        lemma_digits_of(n as nat);
        assert(is_digit(decimal_nat(n as nat)[0]));
    }
}

proof fn lemma_digits_of(n: nat)
    ensures
        decimal_nat(n).len() > 0,
        all_digits(decimal_nat(n)),
        digits_value(decimal_nat(n)) == n,
    decreases n,
{
    let s = decimal_nat(n);
    if n >= 10 {
        lemma_digits_of(n / 10);
        assert(s.drop_last() =~= decimal_nat(n / 10));
        assert(s.last() as int == n % 10 + 48);
    } else {
        assert(s.drop_last() =~= Seq::empty());
        assert(s.last() as int == n + 48);
        assert(digits_value(s.drop_last()) == 0);
    }
}

/// What is read as a number lies in the range asked for, and is written with digits behind one sign at
/// most.
pub proof fn law_only_numerals_are_read(s: Seq<char>, lo: int, hi: int)
    requires
        parsed_int(s, lo, hi) is Some,
    ensures
        lo <= parsed_int(s, lo, hi)->0 <= hi,
        s.len() > 0,
        is_digit(s[s.len() - 1]),
        forall|i: int| 1 <= i < s.len() ==> is_digit(#[trigger] s[i]),
        is_digit(s[0]) || s[0] == '+' || s[0] == '-',
        s[0] == '-' ==> parsed_int(s, lo, hi)->0 <= 0,
        s[0] != '-' ==> parsed_int(s, lo, hi)->0 >= 0,
{
    let digits = if (s.len() > 0 && s[0] == '-' && lo < 0) || (s.len() > 0 && s[0] == '+') {
        s.skip(1)
    } else {
        s
    };
    assert forall|i: int| 1 <= i < s.len() implies is_digit(#[trigger] s[i]) by {
        if digits.len() == s.len() {
            assert(digits[i] == s[i]);
        } else {
            assert(digits[i - 1] == s[i]);
        }
    }
    if digits.len() == s.len() {
        assert(is_digit(digits[0]));
        assert(is_digit(digits[s.len() - 1]));
    } else {
        assert(is_digit(digits[digits.len() - 1]));
    }
}

/// A space, a tab and the line breaks are white space, and so are the wider spaces of other scripts; no
/// visible character of ASCII is.
pub proof fn law_white_space(c: char)
    ensures
        c == ' ' || c == '\t' || c == '\n' || c == '\r' ==> is_white_space(c),
        0x21 <= c as int <= 0x7e ==> !is_white_space(c),
        is_white_space(c) && (c as int) < 0x80 <==> c as int == 0x20 || 9 <= c as int <= 13,
        is_white_space(c) && c as int >= 0x80 <==> c as int == 0x85 || c as int == 0xa0 || c as int
            == 0x1680 || 0x2000 <= c as int <= 0x200a || c as int == 0x2028 || c as int == 0x2029
            || c as int == 0x202f || c as int == 0x205f || c as int == 0x3000,
{
}

/// Trimming takes the white space around a text and leaves the text: what has none at its ends comes out
/// of any white space around it as it went in.
pub proof fn law_trimming_takes_what_surrounds(before: Seq<char>, s: Seq<char>, after: Seq<char>)
    requires
        forall|i: int| 0 <= i < before.len() ==> is_white_space(#[trigger] before[i]),
        forall|i: int| 0 <= i < after.len() ==> is_white_space(#[trigger] after[i]),
        s.len() > 0 ==> !is_white_space(s[0]) && !is_white_space(s[s.len() - 1]),
    ensures
        trimmed(before + s + after) == s,
{
    lemma_trimmed_start(before, s + after);
    assert(before + s + after =~= before + (s + after));
    if s.len() > 0 {
        assert(trimmed_start(s + after) =~= s + after);
        lemma_trimmed_end(s, after);
        assert(trimmed_end(s) == s);
    } else {
        assert(s + after =~= after);
        lemma_trimmed_start(after, Seq::empty());
        assert(after + Seq::<char>::empty() =~= after);
        assert(trimmed_start(Seq::<char>::empty()) =~= Seq::empty());
        assert(trimmed_end(Seq::<char>::empty()) =~= Seq::empty());
        assert(s =~= Seq::empty());
    }
}

proof fn lemma_trimmed_start(before: Seq<char>, s: Seq<char>)
    requires
        forall|i: int| 0 <= i < before.len() ==> is_white_space(#[trigger] before[i]),
    ensures
        trimmed_start(before + s) == trimmed_start(s),
    decreases before.len(),
{
    if before.len() > 0 {
        let rest = before.drop_first();
        assert forall|i: int| 0 <= i < rest.len() implies is_white_space(#[trigger] rest[i]) by {
            assert(rest[i] == before[i + 1]);
        }
        lemma_trimmed_start(rest, s);
        assert((before + s).drop_first() =~= rest + s);
        assert((before + s).first() == before[0]);
    } else {
        assert(before + s =~= s);
    }
}

proof fn lemma_trimmed_end(s: Seq<char>, after: Seq<char>)
    requires
        forall|i: int| 0 <= i < after.len() ==> is_white_space(#[trigger] after[i]),
    ensures
        trimmed_end(s + after) == trimmed_end(s),
    decreases after.len(),
{
    if after.len() > 0 {
        lemma_trimmed_end(s, after.drop_last());
        assert((s + after).drop_last() =~= s + after.drop_last());
        assert((s + after).last() == after[after.len() - 1]);
    } else {
        assert(s + after =~= s);
    }
}

/// What is trimmed has no white space at either end, and nothing is left of white space alone.
pub proof fn law_trimmed_text_has_no_white_ends(s: Seq<char>)
    ensures
        trimmed(s).len() > 0 ==> !is_white_space(trimmed(s)[0]) && !is_white_space(
            trimmed(s)[trimmed(s).len() - 1],
        ),
        trimmed(s).len() == 0 <==> forall|i: int| 0 <= i < s.len() ==> is_white_space(#[trigger] s[i]),
{
    lemma_start_is_suffix(s);
    lemma_end_is_prefix(trimmed_start(s));
    let t = trimmed_start(s);
    if t.len() > 0 {
        assert(!is_white_space(t[0]));
        let k = s.len() - t.len();
        assert(s[k] == t[0]);
        assert(trimmed_end(t).len() > 0);
        assert(trimmed_end(t)[0] == t[0]);
    }
}

proof fn lemma_start_is_suffix(s: Seq<char>)
    ensures
        trimmed_start(s).len() <= s.len(),
        trimmed_start(s) == s.skip(s.len() - trimmed_start(s).len()),
        trimmed_start(s).len() > 0 ==> !is_white_space(trimmed_start(s)[0]),
        forall|i: int|
            0 <= i < s.len() - trimmed_start(s).len() ==> is_white_space(#[trigger] s[i]),
    decreases s.len(),
{
    if s.len() > 0 && is_white_space(s.first()) {
        let rest = s.drop_first();
        lemma_start_is_suffix(rest);
        let t = trimmed_start(s);
        assert(rest.skip(rest.len() - t.len()) =~= s.skip(s.len() - t.len()));
        assert forall|i: int| 0 <= i < s.len() - t.len() implies is_white_space(#[trigger] s[i]) by {
            if i > 0 {
                assert(rest[i - 1] == s[i]);
            }
        }
    } else {
        assert(s.skip(0) =~= s);
    }
}

proof fn lemma_end_is_prefix(s: Seq<char>)
    ensures
        trimmed_end(s).len() <= s.len(),
        trimmed_end(s) == s.take(trimmed_end(s).len() as int),
        trimmed_end(s).len() > 0 ==> !is_white_space(trimmed_end(s)[trimmed_end(s).len() - 1]),
        forall|i: int| trimmed_end(s).len() <= i < s.len() ==> is_white_space(#[trigger] s[i]),
    decreases s.len(),
{
    if s.len() > 0 && is_white_space(s.last()) {
        let init = s.drop_last();
        lemma_end_is_prefix(init);
        let t = trimmed_end(s);
        assert(init.take(t.len() as int) =~= s.take(t.len() as int));
        assert forall|i: int| t.len() <= i < s.len() implies is_white_space(#[trigger] s[i]) by {
            if i < init.len() {
                assert(init[i] == s[i]);
            }
        }
    } else {
        assert(s.take(s.len() as int) =~= s);
    }
}

/// Slashes at the end are taken, all of them, and nothing else.
pub proof fn law_slashes_at_the_end_are_taken(s: Seq<char>, n: nat)
    requires
        s.len() == 0 || s[s.len() - 1] != '/',
    ensures
        without_trailing_slashes(s + Seq::new(n, |i: int| '/')) == s,
    decreases n,
{
    let slashes = Seq::new(n, |i: int| '/');
    if n > 0 {
        let fewer = Seq::new((n - 1) as nat, |i: int| '/');
        law_slashes_at_the_end_are_taken(s, (n - 1) as nat);
        assert((s + slashes).drop_last() =~= s + fewer);
        assert((s + slashes).last() == '/');
    } else {
        assert(s + slashes =~= s);
    }
}

/// Splitting a text at a character and joining the pieces with it gives the text back, and no piece
/// holds the character.
pub proof fn law_pieces_join_to_the_text(s: Seq<char>, c: char)
    ensures
        joined(pieces(s, c), seq![c]) == s,
        pieces(s, c).len() > 0,
        forall|i: int| 0 <= i < pieces(s, c).len() ==> !(#[trigger] pieces(s, c)[i]).contains(c),
    decreases s.len(),
{
    let at = position_from(s, c, 0);
    lemma_first_position(s, c, 0);
    let all = pieces(s, c);
    if at >= s.len() {
        assert forall|i: int| 0 <= i < all.len() implies !(#[trigger] all[i]).contains(c) by {
            assert(all[i] == s);
        }
    } else {
        let head = s.subrange(0, at);
        let rest = s.subrange(at + 1, s.len() as int);
        law_pieces_join_to_the_text(rest, c);
        lemma_joined_front(head, pieces(rest, c), seq![c]);
        assert(head + seq![c] + rest =~= s);
        assert forall|i: int| 0 <= i < all.len() implies !(#[trigger] all[i]).contains(c) by {
            if i > 0 {
                assert(all[i] == pieces(rest, c)[i - 1]);
            } else if head.contains(c) {
                let k = choose|k: int| 0 <= k < head.len() && head[k] == c;
                assert(s[k] == c);
            }
        }
    }
}

proof fn lemma_first_position(s: Seq<char>, c: char, from: int)
    requires
        0 <= from <= s.len(),
    ensures
        from <= position_from(s, c, from) <= s.len(),
        position_from(s, c, from) < s.len() ==> s[position_from(s, c, from)] == c,
        forall|i: int| from <= i < position_from(s, c, from) ==> #[trigger] s[i] != c,
    decreases s.len() - from,
{
    if from < s.len() && s[from] != c {
        lemma_first_position(s, c, from + 1);
    }
}

proof fn lemma_joined_front(head: Seq<char>, rest: Seq<Seq<char>>, sep: Seq<char>)
    requires
        rest.len() > 0,
    ensures
        joined(seq![head] + rest, sep) == head + sep + joined(rest, sep),
    decreases rest.len(),
{
    let all = seq![head] + rest;
    assert(all.last() == rest.last());
    if rest.len() == 1 {
        assert(all.drop_last() =~= seq![head]);
        assert(joined(seq![head], sep) == head);
    } else {
        lemma_joined_front(head, rest.drop_last(), sep);
        assert(all.drop_last() =~= seq![head] + rest.drop_last());
        assert(head + sep + joined(rest.drop_last(), sep) + sep + rest.last() =~= head + sep + (
        joined(rest.drop_last(), sep) + sep + rest.last()));
    }
}

/// Texts are ordered by the first character in which they differ, and a text comes before what begins
/// with it.
pub proof fn law_texts_are_ordered_by_their_first_difference(
    w: Seq<char>,
    c: char,
    d: char,
    x: Seq<char>,
    y: Seq<char>,
)
    requires
        (c as int) < (d as int),
    ensures
        text_le(w + seq![c] + x, w + seq![d] + y),
        !text_le(w + seq![d] + y, w + seq![c] + x),
        text_le(w, w + x),
    decreases w.len(),
{
    let a = w + seq![c] + x;
    let b = w + seq![d] + y;
    if w.len() > 0 {
        let rest = w.drop_first();
        law_texts_are_ordered_by_their_first_difference(rest, c, d, x, y);
        assert(a.drop_first() =~= rest + seq![c] + x);
        assert(b.drop_first() =~= rest + seq![d] + y);
        assert((w + x).drop_first() =~= rest + x);
        assert(a[0] == w[0] && b[0] == w[0] && (w + x)[0] == w[0]);
    } else {
        assert(a[0] == c && b[0] == d);
    }
}

/// A text stands in another exactly where the other is something, the text, and something.
pub proof fn law_text_stands_in_another(before: Seq<char>, needle: Seq<char>, after: Seq<char>)
    ensures
        contains_text(before + needle + after, needle),
{
    let s = before + needle + after;
    assert(s.subrange(before.len() as int, (before.len() + needle.len()) as int) =~= needle);
    assert(occurs_at(s, needle, before.len() as int));
}

/// A member is found by its key, and of several the first is read.
pub proof fn law_first_member_is_read(
    members: Seq<(String, Json)>,
    key: Seq<char>,
    i: int,
)
    requires
        0 <= i < members.len(),
        members[i].0@ == key,
        forall|j: int| 0 <= j < i ==> (#[trigger] members[j]).0@ != key,
    ensures
        member(members, key) == Some(members[i].1),
    decreases members.len(),
{
    if i > 0 {
        let rest = members.drop_first();
        assert(rest[i - 1] == members[i]);
        assert forall|j: int| 0 <= j < i - 1 implies (#[trigger] rest[j]).0@ != key by {
            assert(rest[j] == members[j + 1]);
        }
        assert(members[0].0@ != key);
        law_first_member_is_read(rest, key, i - 1);
    }
}

/// A key that no member has is read as nothing.
pub proof fn law_absent_member_is_none(members: Seq<(String, Json)>, key: Seq<char>)
    requires
        forall|j: int| 0 <= j < members.len() ==> (#[trigger] members[j]).0@ != key,
    ensures
        member(members, key) is None,
    decreases members.len(),
{
    if members.len() > 0 {
        let rest = members.drop_first();
        assert(members[0].0@ != key);
        assert forall|j: int| 0 <= j < rest.len() implies (#[trigger] rest[j]).0@ != key by {
            assert(rest[j] == members[j + 1]);
        }
        law_absent_member_is_none(rest, key);
    }
}

/// A double with the exponent of one in its last place writes the integer of its significand, with its
/// sign; zero writes zero.
pub proof fn law_double_writes_its_significand(fraction: u64)
    requires
        fraction < 0x10_0000_0000_0000,
    ensures
        float_integer((0x4330_0000_0000_0000 + fraction) as u64) == Some(
            0x10_0000_0000_0000 + fraction,
        ),
        float_integer((0xc330_0000_0000_0000 + fraction) as u64) == Some(
            -(0x10_0000_0000_0000 + fraction),
        ),
        float_integer(0) == Some(0int),
        float_integer(0x8000_0000_0000_0000) == Some(0int),
{
    vstd::arithmetic::power2::lemma2_to64();
    let s = 0x10_0000_0000_0000 + fraction;
    assert(s * pow2(0) == s) by (nonlinear_arith)
        requires
            pow2(0) == 1,
    ;
    let up = (0x4330_0000_0000_0000 + fraction) as u64;
    let down = (0xc330_0000_0000_0000 + fraction) as u64;
    assert(up as int / 0x10_0000_0000_0000 == 1075);
    assert(down as int / 0x10_0000_0000_0000 == 0xc33);
}

/// One more in its exponent doubles what a double writes; so a double writes no integer where twice its
/// value is odd or none.
pub proof fn law_exponent_doubles_the_value(bits: u64)
    requires
        0 < bits / 0x10_0000_0000_0000 % 0x800 < 0x7fe,
    ensures
        ({
            let twice = float_integer((bits + 0x10_0000_0000_0000) as u64);
            match float_integer(bits) {
                Some(v) => twice == Some(2 * v),
                None => twice is None || twice->0 % 2 != 0,
            }
        }),
{
    let e = bits as int / 0x10_0000_0000_0000 % 0x800;
    let f = bits as int % 0x10_0000_0000_0000;
    let next = (bits + 0x10_0000_0000_0000) as u64;
    assert(bits + 0x10_0000_0000_0000 <= u64::MAX);
    assert(next as int / 0x10_0000_0000_0000 % 0x800 == e + 1);
    assert(next as int % 0x10_0000_0000_0000 == f);
    assert(next >= 0x8000_0000_0000_0000 <==> bits >= 0x8000_0000_0000_0000);
    let s = 0x10_0000_0000_0000 + f;
    if e >= 1075 {
        let k = (e - 1075) as nat;
        lemma_pow2_unfold(k + 1);
        assert(s * pow2(k + 1) == 2 * (s * pow2(k))) by (nonlinear_arith)
            requires
                pow2(k + 1) == 2 * pow2(k),
        ;
        assert(((e + 1) - 1075) as nat == k + 1);
        let v = s * pow2(k);
        let w = s * pow2(k + 1);
        let negative = bits >= 0x8000_0000_0000_0000;
        assert(float_integer(bits) == Some(if negative {
            -v
        } else {
            v
        }));
        assert(float_integer(next) == Some(if negative {
            -w
        } else {
            w
        }));
    } else {
        let k = (1075 - e) as nat;
        lemma_pow2_unfold(k);
        lemma_pow2_pos((k - 1) as nat);
        let p = pow2((k - 1) as nat) as int;
        if k == 1 {
            vstd::arithmetic::power2::lemma2_to64();
            assert(pow2(0) == 1 && pow2(1) == 2);
            assert(s * pow2(0) == s) by (nonlinear_arith)
                requires
                    pow2(0) == 1,
            ;
            assert(((e + 1) - 1075) as nat == 0);
            assert(float_integer(next) is Some);
            assert(float_integer(bits) is Some <==> s % 2 == 0);
        } else {
            assert((1075 - (e + 1)) as nat == (k - 1) as nat);
            assert(pow2(k) == 2 * p);
            lemma_halving(s, p);
            assert(float_integer(bits) is Some <==> s % (2 * p) == 0);
            assert(float_integer(next) is Some <==> s % p == 0);
        }
    }
}

proof fn lemma_halving(s: int, p: int)
    requires
        s >= 0,
        p > 0,
    ensures
        s % (2 * p) == 0 ==> s % p == 0 && s / p == 2 * (s / (2 * p)),
        s % p == 0 && s % (2 * p) != 0 ==> (s / p) % 2 == 1,
{
    vstd::arithmetic::div_mod::lemma_fundamental_div_mod(s, 2 * p);
    vstd::arithmetic::div_mod::lemma_fundamental_div_mod(s, p);
    let q = s / (2 * p);
    let r = s % (2 * p);
    vstd::arithmetic::div_mod::lemma_mod_bound(s, 2 * p);
    assert((2 * p) * q == p * (2 * q)) by (nonlinear_arith);
    if r == 0 {
        vstd::arithmetic::div_mod::lemma_fundamental_div_mod_converse(s, p, 2 * q, 0);
    }
    if s % p == 0 && r != 0 {
        if r < p {
            vstd::arithmetic::div_mod::lemma_fundamental_div_mod_converse(s, p, 2 * q, r);
        } else {
            assert(p * (2 * q + 1) == p * (2 * q) + p) by (nonlinear_arith);
            vstd::arithmetic::div_mod::lemma_fundamental_div_mod_converse(s, p, 2 * q + 1, r - p);
        }
    }
}

/// A value coerces to a number: an integer to itself, a numeral to what it writes whatever white space is
/// around it, a double to the integer it writes, and nothing else to any.
pub proof fn law_numbers_are_coerced(value: Json)
    ensures
        value matches Json::Int(n) ==> coerced_i64(value) == Some(n),
        value matches Json::Float(bits) ==> coerced_i64(value) == float_to_i64(bits),
        value matches Json::Str(s) ==> match parsed_int(
            trimmed(s@),
            -0x8000_0000_0000_0000,
            0x7fff_ffff_ffff_ffff,
        ) {
            Some(v) => coerced_i64(value) == Some(v as i64),
            None => coerced_i64(value) is None,
        },
        value is Null || value is Bool || value is Array || value is Object ==> coerced_i64(value)
            is None,
{
}

/// A double is taken for an integer exactly where it writes one that fits.
pub proof fn law_double_is_taken_where_it_fits(bits: u64)
    ensures
        float_to_i64(bits) is Some <==> float_integer(bits) is Some && -0x8000_0000_0000_0000
            <= float_integer(bits)->0 <= 0x7fff_ffff_ffff_ffff,
        float_to_i64(bits) is Some ==> float_to_i64(bits)->0 == float_integer(bits)->0,
{
}

} // verus!
