//! Searching texts for a query, as the dashboard does.
//!
//! A query matches a text that holds it anywhere, upper and lower case alike. Within a query `%` stands
//! for any characters, `_` for any one, and a backslash takes the meaning from the character behind it.

use vstd::prelude::*;

use crate::text;
use crate::text::lowercase_of;

verus! {

/// A piece of a pattern.
#[derive(Clone, Copy, Debug, PartialEq, Eq, Structural)]
pub enum Piece {
    /// Any characters, or none.
    Any,
    /// Any one character.
    One,
    /// This character.
    Exactly(char),
}

/// The piece that stands for a character.
pub open spec fn exactly(c: char) -> Piece {
    Piece::Exactly(c)
}

/// The pieces that a pattern is written with.
pub open spec fn pieces_of(pattern: Seq<char>) -> Seq<Piece>
    decreases pattern.len(),
{
    if pattern.len() == 0 {
        Seq::empty()
    } else if pattern[0] == '%' {
        seq![Piece::Any] + pieces_of(pattern.skip(1))
    } else if pattern[0] == '_' {
        seq![Piece::One] + pieces_of(pattern.skip(1))
    } else if pattern[0] == '\\' && pattern.len() > 1 {
        seq![exactly(pattern[1])] + pieces_of(pattern.skip(2))
    } else {
        seq![exactly(pattern[0])] + pieces_of(pattern.skip(1))
    }
}

/// Whether a text is made up as the pieces say.
pub open spec fn fits(pieces: Seq<Piece>, s: Seq<char>) -> bool
    decreases pieces.len(), s.len(),
{
    if pieces.len() == 0 {
        s.len() == 0
    } else {
        match pieces[0] {
            Piece::Any => fits(pieces.skip(1), s) || (s.len() > 0 && fits(pieces, s.skip(1))),
            Piece::One => s.len() > 0 && fits(pieces.skip(1), s.skip(1)),
            Piece::Exactly(c) => s.len() > 0 && s[0] == c && fits(pieces.skip(1), s.skip(1)),
        }
    }
}

/// Reads the pieces of a pattern.
pub fn read_pattern(pattern: &str) -> (r: Vec<Piece>)
    ensures
        r@ == pieces_of(pattern@),
{
    let chars: Vec<char> = text::chars_of(pattern);
    let mut out: Vec<Piece> = Vec::new();
    let mut i: usize = 0;
    assert(chars@.skip(0) =~= chars@);
    assert(out@ + pieces_of(chars@) =~= pieces_of(chars@));
    while i < chars.len()
        invariant
            i <= chars@.len(),
            out@ + pieces_of(chars@.skip(i as int)) == pieces_of(chars@),
        decreases chars@.len() - i,
    {
        let ghost rest = chars@.skip(i as int);
        let ghost before = out@;
        assert(rest[0] == chars@[i as int]);
        assert(rest.skip(1) =~= chars@.skip(i + 1));
        let c: char = chars[i];
        if c == '%' {
            out.push(Piece::Any);
            assert(out@ + pieces_of(rest.skip(1)) =~= before + pieces_of(rest));
        } else if c == '_' {
            out.push(Piece::One);
            assert(out@ + pieces_of(rest.skip(1)) =~= before + pieces_of(rest));
        } else if c == '\\' && i + 1 < chars.len() {
            assert(rest[1] == chars@[i + 1]);
            assert(rest.skip(2) =~= chars@.skip(i + 2));
            i = i + 1;
            out.push(Piece::Exactly(chars[i]));
            assert(out@ + pieces_of(rest.skip(2)) =~= before + pieces_of(rest));
        } else {
            out.push(Piece::Exactly(c));
            assert(out@ + pieces_of(rest.skip(1)) =~= before + pieces_of(rest));
        }
        i = i + 1;
    }
    assert(out@ + pieces_of(chars@.skip(i as int)) =~= out@);
    out
}

/// Whether `row` says, for every end of a text, whether it fits the pieces.
spec fn tells(row: Seq<bool>, pieces: Seq<Piece>, s: Seq<char>) -> bool {
    &&& row.len() == s.len() + 1
    &&& forall|j: int| 0 <= j <= s.len() ==> #[trigger] row[j] == fits(pieces, s.skip(j))
}

/// Whether a text is made up as the pieces say.
pub fn fits_pieces(pieces: &Vec<Piece>, s: &str) -> (r: bool)
    ensures
        r == fits(pieces@, s@),
{
    let chars: Vec<char> = text::chars_of(s);
    let n: usize = chars.len();
    let mut row: Vec<bool> = Vec::new();
    while row.len() < n
        invariant
            n == chars@.len(),
            row@.len() <= n,
            forall|j: int| 0 <= j < row@.len() ==> !#[trigger] row@[j],
        decreases n - row@.len(),
    {
        row.push(false);
    }
    row.push(true);
    let mut k: usize = pieces.len();
    assert(tells(row@, pieces@.skip(k as int), chars@));
    while k > 0
        invariant
            k <= pieces@.len(),
            n == chars@.len(),
            chars@ == s@,
            tells(row@, pieces@.skip(k as int), chars@),
        decreases k,
    {
        k = k - 1;
        let ghost old_row = row@;
        let ghost now = pieces@.skip(k as int);
        let ghost rest = pieces@.skip(k + 1);
        assert(now[0] == pieces@[k as int]);
        assert(now.skip(1) =~= rest);
        let piece: Piece = pieces[k];
        let mut next: Vec<bool> = Vec::new();
        while next.len() <= n
            invariant
                n < old_row.len(),
                next@.len() <= n + 1,
            decreases n + 1 - next@.len(),
        {
            next.push(false);
        }
        let mut j: usize = n;
        loop
            invariant
                j <= n,
                n == chars@.len(),
                next@.len() == n + 1,
                row@ == old_row,
                tells(old_row, rest, chars@),
                piece == now[0],
                now.len() > 0,
                now.skip(1) == rest,
                forall|i: int| j < i <= n ==> #[trigger] next@[i] == fits(now, chars@.skip(i)),
            ensures
                next@.len() == n + 1,
                forall|i: int| 0 <= i <= n ==> #[trigger] next@[i] == fits(now, chars@.skip(i)),
            decreases j,
        {
            let ghost end = chars@.skip(j as int);
            assert(old_row[j as int] == fits(rest, end));
            proof {
                if j < n {
                    assert(end[0] == chars@[j as int]);
                    assert(end.skip(1) =~= chars@.skip(j + 1));
                    assert(old_row[j + 1] == fits(rest, end.skip(1)));
                }
            }
            let fitting: bool = match piece {
                Piece::Any => row[j] || (j < n && next[j + 1]),
                Piece::One => j < n && row[j + 1],
                Piece::Exactly(c) => j < n && chars[j] == c && row[j + 1],
            };
            assert(fitting == fits(now, end));
            next.set(j, fitting);
            if j == 0 {
                break;
            }
            j = j - 1;
        }
        row = next;
    }
    assert(chars@.skip(0) =~= s@);
    assert(pieces@.skip(0) =~= pieces@);
    row[0]
}

/// The pieces of what a query looks for: the query anywhere, in lower case.
pub open spec fn sought(query: Seq<char>) -> Seq<Piece> {
    pieces_of("%"@ + lowercase_of(query) + "%"@)
}

/// Whether a text matches a query, upper and lower case alike.
pub open spec fn matches_query(query: Seq<char>, s: Seq<char>) -> bool {
    fits(sought(query), lowercase_of(s))
}

/// The pieces of what a query looks for.
pub fn read_query(query: &str) -> (r: Vec<Piece>)
    ensures
        r@ == sought(query@),
{
    let mut pattern: String = "%".to_owned();
    pattern.append(text::lowercase(query).as_str());
    pattern.append("%");
    read_pattern(pattern.as_str())
}

/// Whether a text holds what is looked for, upper and lower case alike.
pub fn holds(sought: &Vec<Piece>, s: &str) -> (r: bool)
    ensures
        r == fits(sought@, lowercase_of(s@)),
{
    fits_pieces(sought, text::lowercase(s).as_str())
}

/// Whether a text has no character with a meaning of its own in a pattern.
pub open spec fn is_plain(s: Seq<char>) -> bool {
    forall|i: int| 0 <= i < s.len() ==> (#[trigger] s[i]) != '%' && s[i] != '_' && s[i] != '\\'
}

/// The pieces that stand for the characters of a text.
spec fn letters(s: Seq<char>) -> Seq<Piece> {
    Seq::new(s.len(), |i: int| exactly(s[i]))
}

proof fn lemma_pieces_of_plain(s: Seq<char>)
    requires
        is_plain(s),
    ensures
        pieces_of(s.push('%')) == letters(s).push(Piece::Any),
    decreases s.len(),
{
    let p = s.push('%');
    if s.len() == 0 {
        assert(p.skip(1) =~= Seq::empty());
        assert(pieces_of(p.skip(1)) =~= Seq::empty());
        assert(pieces_of(p) =~= letters(s).push(Piece::Any));
    } else {
        let rest = s.skip(1);
        assert forall|i: int| 0 <= i < rest.len() implies (#[trigger] rest[i]) != '%' && rest[i]
            != '_' && rest[i] != '\\' by {
            assert(rest[i] == s[i + 1]);
        }
        assert(p[0] == s[0]);
        assert(p.skip(1) =~= rest.push('%'));
        lemma_pieces_of_plain(rest);
        assert(pieces_of(p) =~= letters(s).push(Piece::Any));
    }
}

proof fn lemma_any_fits(s: Seq<char>)
    ensures
        fits(seq![Piece::Any], s),
    decreases s.len(),
{
    let pieces = seq![Piece::Any];
    assert(pieces[0] == Piece::Any);
    assert(pieces.skip(1) =~= Seq::empty());
    if s.len() > 0 {
        lemma_any_fits(s.skip(1));
    } else {
        assert(fits(pieces.skip(1), s));
    }
}

proof fn lemma_letters_fit(w: Seq<char>, s: Seq<char>)
    ensures
        fits(letters(w).push(Piece::Any), s) == (w.len() <= s.len() && s.take(w.len() as int) == w),
    decreases w.len(),
{
    let pieces = letters(w).push(Piece::Any);
    if w.len() == 0 {
        assert(pieces =~= seq![Piece::Any]);
        lemma_any_fits(s);
        assert(s.take(0) =~= w);
    } else {
        assert(pieces[0] == exactly(w[0]));
        assert(pieces.skip(1) =~= letters(w.skip(1)).push(Piece::Any));
        if s.len() > 0 {
            lemma_letters_fit(w.skip(1), s.skip(1));
            if w.len() <= s.len() {
                assert(s.take(w.len() as int).skip(1) =~= s.skip(1).take(w.len() - 1));
                if s[0] == w[0] && s.skip(1).take(w.len() - 1) == w.skip(1) {
                    assert forall|i: int| 0 <= i < w.len() implies s.take(w.len() as int)[i]
                        == w[i] by {
                        if i > 0 {
                            assert(s.skip(1).take(w.len() - 1)[i - 1] == w.skip(1)[i - 1]);
                        }
                    }
                    assert(s.take(w.len() as int) =~= w);
                }
                if s.take(w.len() as int) == w {
                    assert(s.take(w.len() as int)[0] == w[0]);
                }
            }
        }
    }
}

proof fn lemma_any_skips(pieces: Seq<Piece>, s: Seq<char>)
    ensures
        fits(seq![Piece::Any] + pieces, s) == exists|k: int|
            0 <= k <= s.len() && fits(pieces, #[trigger] s.skip(k)),
    decreases s.len(),
{
    let all = seq![Piece::Any] + pieces;
    assert(all.skip(1) =~= pieces);
    assert(s.skip(0) =~= s);
    if s.len() > 0 {
        let rest = s.skip(1);
        lemma_any_skips(pieces, rest);
        if exists|k: int| 0 <= k <= s.len() && fits(pieces, #[trigger] s.skip(k)) {
            let k = choose|k: int| 0 <= k <= s.len() && fits(pieces, #[trigger] s.skip(k));
            if k > 0 {
                assert(rest.skip(k - 1) =~= s.skip(k));
            }
        }
        if exists|k: int| 0 <= k <= rest.len() && fits(pieces, #[trigger] rest.skip(k)) {
            let k = choose|k: int| 0 <= k <= rest.len() && fits(pieces, #[trigger] rest.skip(k));
            assert(s.skip(k + 1) =~= rest.skip(k));
        }
    }
}

/// A pattern of plain characters with any characters around them fits exactly the texts that hold them
/// somewhere.
pub proof fn law_plain_pattern_is_found_anywhere(w: Seq<char>, s: Seq<char>)
    requires
        is_plain(w),
    ensures
        fits(pieces_of(seq!['%'] + w + seq!['%']), s) == exists|k: int|
            0 <= k <= s.len() - w.len() && #[trigger] s.subrange(k, k + w.len()) == w,
{
    let pattern = seq!['%'] + w + seq!['%'];
    assert(pattern.skip(1) =~= w.push('%'));
    lemma_pieces_of_plain(w);
    let inner = letters(w).push(Piece::Any);
    assert(pieces_of(pattern) =~= seq![Piece::Any] + inner);
    lemma_any_skips(inner, s);
    if fits(pieces_of(pattern), s) {
        let k = choose|k: int| 0 <= k <= s.len() && fits(inner, #[trigger] s.skip(k));
        lemma_letters_fit(w, s.skip(k));
        assert(s.skip(k).take(w.len() as int) =~= s.subrange(k, k + w.len()));
    }
    if exists|k: int| 0 <= k <= s.len() - w.len() && #[trigger] s.subrange(k, k + w.len()) == w {
        let k = choose|k: int|
            0 <= k <= s.len() - w.len() && #[trigger] s.subrange(k, k + w.len()) == w;
        lemma_letters_fit(w, s.skip(k));
        assert(s.skip(k).take(w.len() as int) =~= s.subrange(k, k + w.len()));
    }
}

/// A query of plain characters matches exactly the texts that hold it somewhere, upper and lower case
/// alike.
pub proof fn law_plain_query_is_found_anywhere(query: Seq<char>, s: Seq<char>)
    requires
        forall|i: int|
            0 <= i < lowercase_of(query).len() ==> (#[trigger] lowercase_of(query)[i]) != '%'
                && lowercase_of(query)[i] != '_' && lowercase_of(query)[i] != '\\',
    ensures
        matches_query(query, s) == exists|k: int|
            0 <= k <= lowercase_of(s).len() - lowercase_of(query).len()
                && #[trigger] lowercase_of(s).subrange(k, k + lowercase_of(query).len())
                == lowercase_of(query),
{
    reveal_strlit("%");
    assert("%"@ =~= seq!['%']);
    law_plain_pattern_is_found_anywhere(lowercase_of(query), lowercase_of(s));
}

} // verus!
