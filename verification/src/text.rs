//! Text helpers over `Seq<char>` views: trimming, searching, splitting, and decimal numerals.

use vstd::prelude::*;
use vstd::utf8::encode_utf8;

verus! {

/// Unicode `White_Space`, the property `str::trim` strips.
pub open spec fn is_white_space(c: char) -> bool {
    let u = c as u32;
    ||| 0x9 <= u <= 0xd
    ||| u == 0x20
    ||| u == 0x85
    ||| u == 0xa0
    ||| u == 0x1680
    ||| 0x2000 <= u <= 0x200a
    ||| u == 0x2028
    ||| u == 0x2029
    ||| u == 0x202f
    ||| u == 0x205f
    ||| u == 0x3000
}

/// `s` without its leading white space.
pub open spec fn trimmed_start(s: Seq<char>) -> Seq<char>
    decreases s.len(),
{
    if s.len() > 0 && is_white_space(s.first()) {
        trimmed_start(s.drop_first())
    } else {
        s
    }
}

/// `s` without its trailing white space.
pub open spec fn trimmed_end(s: Seq<char>) -> Seq<char>
    decreases s.len(),
{
    if s.len() > 0 && is_white_space(s.last()) {
        trimmed_end(s.drop_last())
    } else {
        s
    }
}

/// `s` without its surrounding white space.
pub open spec fn trimmed(s: Seq<char>) -> Seq<char> {
    trimmed_end(trimmed_start(s))
}

/// `s` without its trailing slashes.
pub open spec fn without_trailing_slashes(s: Seq<char>) -> Seq<char>
    decreases s.len(),
{
    if s.len() > 0 && s.last() == '/' {
        without_trailing_slashes(s.drop_last())
    } else {
        s
    }
}

/// Whether `needle` stands in `s` at position `at`.
pub open spec fn occurs_at(s: Seq<char>, needle: Seq<char>, at: int) -> bool {
    &&& 0 <= at
    &&& at + needle.len() <= s.len()
    &&& s.subrange(at, at + needle.len()) =~= needle
}

/// Whether `needle` stands somewhere in `s`.
pub open spec fn contains_text(s: Seq<char>, needle: Seq<char>) -> bool {
    exists|at: int| occurs_at(s, needle, at)
}

/// The first position of `c` in `s` at or after `from`, or `s.len()`.
pub open spec fn position_from(s: Seq<char>, c: char, from: int) -> int
    decreases s.len() - from,
{
    if from < 0 || from >= s.len() {
        s.len() as int
    } else if s[from] == c {
        from
    } else {
        position_from(s, c, from + 1)
    }
}

/// The pieces of `s` between occurrences of `sep`, empty pieces included.
pub open spec fn pieces(s: Seq<char>, sep: char) -> Seq<Seq<char>>
    decreases s.len(),
    via pieces_decreases
{
    let at = position_from(s, sep, 0);
    if at >= s.len() {
        seq![s]
    } else {
        seq![s.subrange(0, at)] + pieces(s.subrange(at + 1, s.len() as int), sep)
    }
}

#[via_fn]
proof fn pieces_decreases(s: Seq<char>, sep: char) {
    lemma_position_bounds(s, sep, 0);
}

/// `parts` with `sep` between every two of them.
pub open spec fn joined(parts: Seq<Seq<char>>, sep: Seq<char>) -> Seq<char>
    decreases parts.len(),
{
    if parts.len() == 0 {
        Seq::empty()
    } else if parts.len() == 1 {
        parts[0]
    } else {
        joined(parts.drop_last(), sep) + sep + parts.last()
    }
}

/// The views of a vector of strings.
pub open spec fn views(v: Seq<String>) -> Seq<Seq<char>> {
    v.map_values(|s: String| s@)
}

/// The view of an optional string.
pub open spec fn opt_view(s: Option<String>) -> Option<Seq<char>> {
    match s {
        Some(s) => Some(s@),
        None => None,
    }
}

/// The view of an optional string slice.
pub open spec fn opt_str_view(s: Option<&str>) -> Option<Seq<char>> {
    match s {
        Some(s) => Some(s@),
        None => None,
    }
}

pub proof fn lemma_position_bounds(s: Seq<char>, c: char, from: int)
    requires
        0 <= from <= s.len(),
    ensures
        from <= position_from(s, c, from) <= s.len(),
        position_from(s, c, from) < s.len() ==> s[position_from(s, c, from)] == c,
        forall|i: int| from <= i < position_from(s, c, from) ==> s[i] != c,
    decreases s.len() - from,
{
    if from < s.len() && s[from] != c {
        lemma_position_bounds(s, c, from + 1);
    }
}

/// Whether two optional strings hold the same text, or neither is there.
pub fn same_opt(a: &Option<String>, b: &Option<String>) -> (r: bool)
    ensures
        r == (opt_view(*a) == opt_view(*b)),
{
    match (a, b) {
        (Some(a), Some(b)) => same(a.as_str(), b.as_str()),
        (None, None) => true,
        _ => false,
    }
}

/// A copy of an optional string.
pub fn copy_opt(v: &Option<String>) -> (r: Option<String>)
    ensures
        opt_view(r) == opt_view(*v),
{
    match v {
        Some(v) => Some(v.clone()),
        None => None,
    }
}

/// Whether two strings hold the same text.
pub fn same(a: &str, b: &str) -> (r: bool)
    ensures
        r == (a@ == b@),
{
    let x = a.as_bytes();
    let y = b.as_bytes();
    proof {
        vstd::utf8::encode_utf8_decode_utf8(a@);
        vstd::utf8::encode_utf8_decode_utf8(b@);
    }
    if x.len() != y.len() {
        return false;
    }
    let mut i: usize = 0;
    while i < x.len()
        invariant
            i <= x@.len(),
            x@.len() == y@.len(),
            x@ == encode_utf8(a@),
            y@ == encode_utf8(b@),
            forall|j: int| 0 <= j < i ==> x@[j] == y@[j],
        decreases x@.len() - i,
    {
        if x[i] != y[i] {
            return false;
        }
        i = i + 1;
    }
    assert(x@ =~= y@);
    true
}

/// The characters of a string.
pub fn chars_of(s: &str) -> (v: Vec<char>)
    ensures
        v@ == s@,
{
    let mut v: Vec<char> = Vec::new();
    for c in it: s.chars()
        invariant
            it.seq() == s@,
            v@ == s@.take(it.index() as int),
    {
        v.push(c);
        assert(s@.take(it.index() as int + 1) =~= s@.take(it.index() as int).push(c));
    }
    assert(s@.take(s@.len() as int) =~= s@);
    v
}

proof fn lemma_trimmed_start_skips(s: Seq<char>, n: int)
    requires
        0 <= n <= s.len(),
        forall|i: int| 0 <= i < n ==> is_white_space(#[trigger] s[i]),
    ensures
        trimmed_start(s) == trimmed_start(s.skip(n)),
    decreases n,
{
    if n > 0 {
        let rest = s.drop_first();
        assert forall|i: int| 0 <= i < n - 1 implies is_white_space(#[trigger] rest[i]) by {
            assert(rest[i] == s[i + 1]);
        }
        lemma_trimmed_start_skips(rest, n - 1);
        assert(rest.skip(n - 1) =~= s.skip(n));
        assert(is_white_space(s[0]));
    } else {
        assert(s.skip(0) =~= s);
    }
}

proof fn lemma_trimmed_end_drops(s: Seq<char>, n: int)
    requires
        0 <= n <= s.len(),
        forall|i: int| n <= i < s.len() ==> is_white_space(#[trigger] s[i]),
    ensures
        trimmed_end(s) == trimmed_end(s.take(n)),
    decreases s.len() - n,
{
    if n < s.len() {
        let rest = s.drop_last();
        assert(is_white_space(s[s.len() - 1]));
        assert forall|i: int| n <= i < rest.len() implies is_white_space(#[trigger] rest[i]) by {
            assert(rest[i] == s[i]);
        }
        lemma_trimmed_end_drops(rest, n);
        assert(rest.take(n) =~= s.take(n));
    } else {
        assert(s.take(n) =~= s);
    }
}

proof fn lemma_slashes_drop(s: Seq<char>, n: int)
    requires
        0 <= n <= s.len(),
        forall|i: int| n <= i < s.len() ==> #[trigger] s[i] == '/',
    ensures
        without_trailing_slashes(s) == without_trailing_slashes(s.take(n)),
    decreases s.len() - n,
{
    if n < s.len() {
        let rest = s.drop_last();
        assert(s[s.len() - 1] == '/');
        assert forall|i: int| n <= i < rest.len() implies #[trigger] rest[i] == '/' by {
            assert(rest[i] == s[i]);
        }
        lemma_slashes_drop(rest, n);
        assert(rest.take(n) =~= s.take(n));
    } else {
        assert(s.take(n) =~= s);
    }
}

/// Whether a character is Unicode white space.
pub fn white_space(c: char) -> (r: bool)
    ensures
        r == is_white_space(c),
{
    let u: u32 = c as u32;
    (0x9 <= u && u <= 0xd) || u == 0x20 || u == 0x85 || u == 0xa0 || u == 0x1680 || (0x2000 <= u
        && u <= 0x200a) || u == 0x2028 || u == 0x2029 || u == 0x202f || u == 0x205f || u == 0x3000
}

/// The string without its surrounding white space.
pub fn trim<'a>(s: &'a str) -> (r: &'a str)
    ensures
        r@ == trimmed(s@),
{
    let n: usize = s.unicode_len();
    let mut from: usize = 0;
    while from < n && white_space(s.get_char(from))
        invariant
            from <= n,
            n == s@.len(),
            forall|i: int| 0 <= i < from ==> is_white_space(#[trigger] s@[i]),
        decreases n - from,
    {
        from = from + 1;
    }
    let ghost tail = s@.skip(from as int);
    proof {
        lemma_trimmed_start_skips(s@, from as int);
        if from < n {
            assert(tail.first() == s@[from as int]);
        }
        assert(trimmed_start(s@) == tail);
    }
    let mut to: usize = n;
    while from < to && white_space(s.get_char(to - 1))
        invariant
            from <= to <= n,
            n == s@.len(),
            forall|i: int| to <= i < n ==> is_white_space(#[trigger] s@[i]),
        decreases to - from,
    {
        to = to - 1;
    }
    proof {
        assert forall|i: int| to - from <= i < tail.len() implies is_white_space(
            #[trigger] tail[i],
        ) by {
            assert(tail[i] == s@[i + from]);
        }
        lemma_trimmed_end_drops(tail, to - from);
        assert(tail.take(to - from) =~= s@.subrange(from as int, to as int));
        if from < to {
            assert(s@.subrange(from as int, to as int).last() == s@[to - 1]);
        }
    }
    s.substring_char(from, to)
}

/// Whether a string holds nothing but white space.
pub fn blank(s: &str) -> (r: bool)
    ensures
        r == (trimmed(s@).len() == 0),
{
    trim(s).is_empty()
}

/// The string without its trailing slashes.
pub fn trim_end_slashes<'a>(s: &'a str) -> (r: &'a str)
    ensures
        r@ == without_trailing_slashes(s@),
{
    let n: usize = s.unicode_len();
    let mut to: usize = n;
    while 0 < to && s.get_char(to - 1) == '/'
        invariant
            to <= n,
            n == s@.len(),
            forall|i: int| to <= i < n ==> #[trigger] s@[i] == '/',
        decreases to,
    {
        to = to - 1;
    }
    proof {
        lemma_slashes_drop(s@, to as int);
        assert(s@.take(to as int) =~= s@.subrange(0, to as int));
        if to > 0 {
            assert(s@.subrange(0, to as int).last() == s@[to - 1]);
        }
    }
    s.substring_char(0, to)
}

fn occurs(s: &Vec<char>, needle: &Vec<char>, at: usize) -> (r: bool)
    requires
        at + needle@.len() <= s@.len(),
    ensures
        r == occurs_at(s@, needle@, at as int),
{
    let n: usize = s.len();
    let mut i: usize = 0;
    while i < needle.len()
        invariant
            i <= needle@.len(),
            n == s@.len(),
            at + needle@.len() <= n,
            forall|j: int| 0 <= j < i ==> s@[at + j] == #[trigger] needle@[j],
        decreases needle@.len() - i,
    {
        if s[at + i] != needle[i] {
            assert(s@.subrange(at as int, at + needle@.len())[i as int] == s@[at + i]);
            return false;
        }
        i = i + 1;
    }
    true
}

/// Whether `needle` stands somewhere in `s`.
pub fn contains(s: &str, needle: &str) -> (r: bool)
    ensures
        r == contains_text(s@, needle@),
{
    let hay = chars_of(s);
    let pat = chars_of(needle);
    if pat.len() > hay.len() {
        return false;
    }
    let last: usize = hay.len() - pat.len();
    let mut at: usize = 0;
    while at < last
        invariant
            hay@ == s@,
            pat@ == needle@,
            pat@.len() <= hay@.len(),
            last == hay@.len() - pat@.len(),
            at <= last,
            forall|k: int| 0 <= k < at ==> !occurs_at(s@, needle@, k),
        decreases last - at,
    {
        if occurs(&hay, &pat, at) {
            return true;
        }
        at = at + 1;
    }
    occurs(&hay, &pat, last)
}

/// The first position of `c` at or after `from`, or the length.
fn find_char(s: &Vec<char>, c: char, from: usize) -> (at: usize)
    requires
        from <= s@.len(),
    ensures
        at == position_from(s@, c, from as int),
        from <= at <= s@.len(),
{
    let mut i: usize = from;
    while i < s.len() && s[i] != c
        invariant
            from <= i <= s@.len(),
            position_from(s@, c, from as int) == position_from(s@, c, i as int),
        decreases s@.len() - i,
    {
        i = i + 1;
    }
    i
}

/// The pieces of `s` between occurrences of `sep`.
pub fn split(s: &str, sep: char) -> (out: Vec<String>)
    ensures
        views(out@) == pieces(s@, sep),
{
    let cs = chars_of(s);
    let n: usize = cs.len();
    let mut out: Vec<String> = Vec::new();
    let mut from: usize = 0;
    let mut at: usize = find_char(&cs, sep, 0);
    proof {
        assert(s@.subrange(0, n as int) =~= s@);
        assert(views(out@) =~= Seq::empty());
        assert(Seq::<Seq<char>>::empty() + pieces(s@, sep) =~= pieces(s@, sep));
    }
    while at < n
        invariant
            cs@ == s@,
            n == s@.len(),
            from <= at <= n,
            at == position_from(s@, sep, from as int),
            pieces(s@, sep) == views(out@) + pieces(s@.subrange(from as int, n as int), sep),
        decreases n - from,
    {
        let ghost rest = s@.subrange(from as int, n as int);
        let ghost before = out@;
        let piece: String = s.substring_char(from, at).to_owned();
        out.push(piece);
        proof {
            lemma_position_bounds(s@, sep, from as int);
            lemma_position_shift(s@, sep, from as int, from as int);
            let k = position_from(rest, sep, 0);
            assert(k == at - from);
            assert(rest.subrange(0, k) =~= s@.subrange(from as int, at as int));
            assert(rest.subrange(k + 1, rest.len() as int) =~= s@.subrange(at + 1, n as int));
            assert(views(out@) =~= views(before) + seq![s@.subrange(from as int, at as int)]);
            assert(pieces(s@, sep) =~= views(out@) + pieces(s@.subrange(at + 1, n as int), sep));
        }
        from = at + 1;
        at = find_char(&cs, sep, from);
    }
    let ghost before = out@;
    let last: String = s.substring_char(from, n).to_owned();
    out.push(last);
    proof {
        let rest = s@.subrange(from as int, n as int);
        lemma_position_shift(s@, sep, from as int, from as int);
        assert(pieces(rest, sep) == seq![rest]);
        assert(views(out@) =~= views(before) + seq![rest]);
    }
    out
}

proof fn lemma_position_shift(s: Seq<char>, c: char, base: int, from: int)
    requires
        0 <= base <= from <= s.len(),
    ensures
        position_from(s.subrange(base, s.len() as int), c, from - base) == position_from(s, c, from)
            - base,
    decreases s.len() - from,
{
    let tail = s.subrange(base, s.len() as int);
    if from < s.len() {
        assert(tail[from - base] == s[from]);
        if s[from] != c {
            lemma_position_shift(s, c, base, from + 1);
        }
    }
}

/// `parts` joined with `sep` between every two.
pub fn join(parts: &Vec<String>, sep: &str) -> (r: String)
    ensures
        r@ == joined(views(parts@), sep@),
{
    let mut out: String = String::new();
    let mut i: usize = 0;
    while i < parts.len()
        invariant
            i <= parts@.len(),
            out@ == joined(views(parts@).take(i as int), sep@),
        decreases parts@.len() - i,
    {
        let ghost before = views(parts@).take(i as int);
        let ghost after = views(parts@).take(i + 1);
        if i > 0 {
            out.append(sep);
        }
        out.append(parts[i].as_str());
        proof {
            assert(after.drop_last() =~= before);
            assert(after.last() == parts@[i as int]@);
            if i == 0 {
                assert(out@ =~= after[0]);
            }
        }
        i = i + 1;
    }
    assert(views(parts@).take(parts@.len() as int) =~= views(parts@));
    out
}

/// The code point of a character.
fn code(c: char) -> (u: u32)
    ensures
        u == c as int,
{
    c as u32
}

/// Code-point order on texts: the order of `str`, since UTF-8 keeps it.
pub open spec fn text_le(a: Seq<char>, b: Seq<char>) -> bool
    decreases a.len(),
{
    if a.len() == 0 {
        true
    } else if b.len() == 0 {
        false
    } else if a[0] != b[0] {
        (a[0] as int) < (b[0] as int)
    } else {
        text_le(a.drop_first(), b.drop_first())
    }
}

pub proof fn lemma_text_le_total(a: Seq<char>, b: Seq<char>)
    ensures
        text_le(a, b) || text_le(b, a),
    decreases a.len(),
{
    if a.len() > 0 && b.len() > 0 && a[0] == b[0] {
        lemma_text_le_total(a.drop_first(), b.drop_first());
    }
}

pub proof fn lemma_text_le_transitive(a: Seq<char>, b: Seq<char>, c: Seq<char>)
    requires
        text_le(a, b),
        text_le(b, c),
    ensures
        text_le(a, c),
    decreases a.len(),
{
    if a.len() > 0 && b.len() > 0 && c.len() > 0 && a[0] == b[0] && b[0] == c[0] {
        lemma_text_le_transitive(a.drop_first(), b.drop_first(), c.drop_first());
    }
}

pub proof fn lemma_text_le_antisymmetric(a: Seq<char>, b: Seq<char>)
    requires
        text_le(a, b),
        text_le(b, a),
    ensures
        a == b,
    decreases a.len(),
{
    if a.len() > 0 && b.len() > 0 {
        lemma_text_le_antisymmetric(a.drop_first(), b.drop_first());
        assert(a =~= seq![a[0]] + a.drop_first());
        assert(b =~= seq![b[0]] + b.drop_first());
    } else {
        assert(a =~= b);
    }
}

/// Whether `a` stands no later than `b` in code-point order.
pub fn not_after(a: &str, b: &str) -> (r: bool)
    ensures
        r == text_le(a@, b@),
{
    let x = chars_of(a);
    let y = chars_of(b);
    let mut i: usize = 0;
    assert(a@.skip(0) =~= a@);
    assert(b@.skip(0) =~= b@);
    while i < x.len() && i < y.len()
        invariant
            x@ == a@,
            y@ == b@,
            i <= x@.len(),
            i <= y@.len(),
            text_le(a@, b@) == text_le(a@.skip(i as int), b@.skip(i as int)),
        decreases x@.len() - i,
    {
        assert(a@.skip(i as int)[0] == x@[i as int]);
        assert(b@.skip(i as int)[0] == y@[i as int]);
        let p: char = x[i];
        let q: char = y[i];
        if p != q {
            return code(p) < code(q);
        }
        assert(a@.skip(i as int).drop_first() =~= a@.skip(i + 1));
        assert(b@.skip(i as int).drop_first() =~= b@.skip(i + 1));
        i = i + 1;
    }
    i == x.len()
}

/// The decimal digit of a number below ten.
pub open spec fn digit_char(n: int) -> char {
    (n + 48) as char
}

/// The decimal numeral of a natural number, without leading zeros.
pub open spec fn decimal_nat(n: nat) -> Seq<char>
    decreases n,
{
    if n < 10 {
        seq![digit_char(n as int)]
    } else {
        decimal_nat(n / 10).push(digit_char((n % 10) as int))
    }
}

/// The decimal numeral of an integer.
pub open spec fn decimal(n: int) -> Seq<char> {
    if n < 0 {
        seq!['-'] + decimal_nat((-n) as nat)
    } else {
        decimal_nat(n as nat)
    }
}

fn digit_text(n: u64) -> (r: &'static str)
    requires
        n < 10,
    ensures
        r@ == seq![digit_char(n as int)],
{
    proof {
        reveal_strlit("0");
        reveal_strlit("1");
        reveal_strlit("2");
        reveal_strlit("3");
        reveal_strlit("4");
        reveal_strlit("5");
        reveal_strlit("6");
        reveal_strlit("7");
        reveal_strlit("8");
        reveal_strlit("9");
    }
    let r = if n == 0 {
        "0"
    } else if n == 1 {
        "1"
    } else if n == 2 {
        "2"
    } else if n == 3 {
        "3"
    } else if n == 4 {
        "4"
    } else if n == 5 {
        "5"
    } else if n == 6 {
        "6"
    } else if n == 7 {
        "7"
    } else if n == 8 {
        "8"
    } else {
        "9"
    };
    assert(r@ =~= seq![digit_char(n as int)]);
    r
}

/// The decimal numeral of an unsigned integer.
pub fn u64_text(n: u64) -> (r: String)
    ensures
        r@ == decimal(n as int),
    decreases n,
{
    if n < 10 {
        digit_text(n).to_owned()
    } else {
        let mut r: String = u64_text(n / 10);
        r.append(digit_text(n % 10));
        assert(r@ =~= decimal_nat((n / 10) as nat).push(digit_char((n % 10) as int)));
        r
    }
}

/// The decimal numeral of a signed integer.
pub fn i64_text(n: i64) -> (r: String)
    ensures
        r@ == decimal(n as int),
{
    if n < 0 {
        let magnitude: u64 = (-(n as i128)) as u64;
        let mut r: String = "-".to_owned();
        r.append(u64_text(magnitude).as_str());
        proof {
            reveal_strlit("-");
            assert("-"@ =~= seq!['-']);
        }
        r
    } else {
        u64_text(n as u64)
    }
}

/// Whether a character is an ASCII decimal digit.
pub open spec fn is_digit(c: char) -> bool {
    48 <= c as int <= 57
}

/// Whether a text is made of decimal digits alone.
pub open spec fn all_digits(s: Seq<char>) -> bool {
    forall|i: int| 0 <= i < s.len() ==> is_digit(#[trigger] s[i])
}

/// The value a run of digits writes.
pub open spec fn digits_value(s: Seq<char>) -> nat
    decreases s.len(),
{
    if s.len() == 0 {
        0
    } else {
        digits_value(s.drop_last()) * 10 + (s.last() as int - 48) as nat
    }
}

/// The integer `s` writes, if it is an optional sign before one or more digits and lies within
/// `lo..=hi`; a minus sign is read only where negative values are in range.
pub open spec fn parsed_int(s: Seq<char>, lo: int, hi: int) -> Option<int> {
    let negative = s.len() > 0 && s[0] == '-' && lo < 0;
    let signed = negative || (s.len() > 0 && s[0] == '+');
    let digits = if signed {
        s.skip(1)
    } else {
        s
    };
    if digits.len() == 0 || !all_digits(digits) {
        None
    } else {
        let v = if negative {
            -(digits_value(digits) as int)
        } else {
            digits_value(digits) as int
        };
        if lo <= v <= hi {
            Some(v)
        } else {
            None
        }
    }
}

proof fn lemma_digits_value_grows(s: Seq<char>, n: int)
    requires
        0 <= n <= s.len(),
        forall|i: int| 0 <= i < s.len() ==> is_digit(#[trigger] s[i]),
    ensures
        digits_value(s.take(n)) <= digits_value(s),
    decreases s.len() - n,
{
    if n < s.len() {
        let rest = s.drop_last();
        assert forall|i: int| 0 <= i < rest.len() implies is_digit(#[trigger] rest[i]) by {
            assert(rest[i] == s[i]);
        }
        lemma_digits_value_grows(rest, n);
        assert(rest.take(n) =~= s.take(n));
        assert(is_digit(s[s.len() - 1]));
    } else {
        assert(s.take(n) =~= s);
    }
}

/// Reads a signed or unsigned integer within `lo..=hi`.
fn parse_within(s: &str, lo: i64, hi: i64) -> (r: Option<i64>)
    requires
        lo <= 0 <= hi,
    ensures
        r == (match parsed_int(s@, lo as int, hi as int) {
            Some(v) => Some(v as i64),
            None => None::<i64>,
        }),
{
    let cs = chars_of(s);
    let n: usize = cs.len();
    let negative: bool = n > 0 && cs[0] == '-' && lo < 0;
    let signed: bool = negative || (n > 0 && cs[0] == '+');
    let from: usize = if signed {
        1
    } else {
        0
    };
    let ghost digits = if signed {
        s@.skip(1)
    } else {
        s@
    };
    if from == n {
        return None;
    }
    assert(digits.len() == n - from);
    assert(forall|k: int| 0 <= k < digits.len() ==> digits[k] == s@[k + from]);
    let mut acc: i128 = 0;
    let mut over: bool = false;
    let mut i: usize = from;
    assert(digits.take(0) =~= Seq::empty());
    while i < n
        invariant
            cs@ == s@,
            n == s@.len(),
            from <= i <= n,
            from == (if signed {
                1int
            } else {
                0
            }),
            negative == (n > 0 && s@[0] == '-' && lo < 0),
            signed == (negative || (n > 0 && s@[0] == '+')),
            digits == (if signed {
                s@.skip(1)
            } else {
                s@
            }),
            digits.len() == n - from,
            forall|k: int| 0 <= k < digits.len() ==> digits[k] == s@[k + from],
            forall|k: int| 0 <= k < i - from ==> is_digit(#[trigger] digits[k]),
            over ==> digits_value(digits.take(i - from)) > 0x1_0000_0000_0000_0000,
            !over ==> acc == digits_value(digits.take(i - from)),
            0 <= acc <= 0x1_0000_0000_0000_0000,
        decreases n - i,
    {
        let c: char = cs[i];
        let u: u32 = code(c);
        assert(digits[i - from] == c);
        if u < 48 || u > 57 {
            assert(!is_digit(digits[i - from]));
            assert(!all_digits(digits));
            return None;
        }
        assert(is_digit(digits[i - from]));
        proof {
            let next = digits.take(i - from + 1);
            assert(next.drop_last() =~= digits.take(i - from));
            assert(next.last() == digits[i - from]);
        }
        if !over {
            acc = acc * 10 + (u - 48) as i128;
            if acc > 0x1_0000_0000_0000_0000 {
                over = true;
                acc = 0;
            }
        }
        i = i + 1;
    }
    assert(digits.take(n - from) =~= digits);
    if over {
        return None;
    }
    let v: i128 = if negative {
        -acc
    } else {
        acc
    };
    if (lo as i128) <= v && v <= (hi as i128) {
        Some(v as i64)
    } else {
        None
    }
}

/// Reads an `i64` the way its `FromStr` does.
pub fn parse_i64(s: &str) -> (r: Option<i64>)
    ensures
        r == (match parsed_int(s@, i64::MIN as int, i64::MAX as int) {
            Some(v) => Some(v as i64),
            None => None::<i64>,
        }),
{
    parse_within(s, i64::MIN, i64::MAX)
}

/// Reads a `u32` the way its `FromStr` does.
pub fn parse_u32(s: &str) -> (r: Option<u32>)
    ensures
        r == (match parsed_int(s@, 0, u32::MAX as int) {
            Some(v) => Some(v as u32),
            None => None::<u32>,
        }),
{
    match parse_within(s, 0, u32::MAX as i64) {
        Some(v) => Some(v as u32),
        None => None,
    }
}

/// The lower-case form of a text.
pub uninterp spec fn lowercase_of(s: Seq<char>) -> Seq<char>;

/// std's `str::to_lowercase`: the lower-case form by the Unicode derived property, which is the same on
/// every machine; what it is of a given text is left to the named result.
#[verifier::external_body]
pub(crate) fn lowercase(s: &str) -> (r: String)
    ensures
        r@ == lowercase_of(s@),
{
    s.to_lowercase()
}

} // verus!
