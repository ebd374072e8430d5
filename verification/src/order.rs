//! Choosing and ordering rows: the first of those selected, or all of them in order.
//!
//! Rows are ordered by a major and a minor key and then by identifier, so that no order is left to
//! chance. A descending key is written as the negated one.

use vstd::prelude::*;

verus! {

/// What a row is ordered by.
#[derive(Clone, Copy, Debug, PartialEq, Eq, Structural)]
pub struct Key {
    pub major: i128,
    pub minor: i128,
    pub id: u128,
}

/// Whether `a` stands no later than `b`: by the major key, then the minor, then the identifier.
pub open spec fn key_le(a: Key, b: Key) -> bool {
    a.major < b.major || (a.major == b.major && (a.minor < b.minor || (a.minor == b.minor && a.id
        <= b.id)))
}

/// Whether `a` stands no later than `b`.
pub fn no_later(a: Key, b: Key) -> (r: bool)
    ensures
        r == key_le(a, b),
{
    a.major < b.major || (a.major == b.major && (a.minor < b.minor || (a.minor == b.minor && a.id
        <= b.id)))
}

/// Whether `i` is the first of the selected places: it is selected, no selected place stands before it,
/// and of places with the same key it is the lowest.
pub open spec fn is_first(i: int, selected: Seq<bool>, keys: Seq<Key>) -> bool {
    &&& 0 <= i < selected.len()
    &&& selected[i]
    &&& forall|j: int|
        0 <= j < selected.len() && #[trigger] selected[j] ==> key_le(keys[i], keys[j]) && (j < i
            ==> keys[i] != keys[j])
}

/// The first of the selected places, or `None` where none is selected.
pub fn first(selected: &Vec<bool>, keys: &Vec<Key>) -> (r: Option<usize>)
    requires
        selected@.len() == keys@.len(),
    ensures
        match r {
            Some(i) => is_first(i as int, selected@, keys@),
            None => forall|j: int| 0 <= j < selected@.len() ==> !#[trigger] selected@[j],
        },
{
    let mut best: Option<usize> = None;
    let mut j: usize = 0;
    while j < selected.len()
        invariant
            j <= selected@.len(),
            selected@.len() == keys@.len(),
            match best {
                Some(i) => i < j && selected@[i as int] && forall|k: int|
                    0 <= k < j && #[trigger] selected@[k] ==> key_le(keys@[i as int], keys@[k])
                        && (k < i ==> keys@[i as int] != keys@[k]),
                None => forall|k: int| 0 <= k < j ==> !#[trigger] selected@[k],
            },
        decreases selected@.len() - j,
    {
        if selected[j] {
            match best {
                Some(i) => {
                    if !no_later(keys[i], keys[j]) {
                        best = Some(j);
                    }
                },
                None => {
                    best = Some(j);
                },
            }
        }
        j = j + 1;
    }
    best
}

/// Whether `out` lists the selected places, each once, in order.
pub open spec fn arranges(out: Seq<usize>, selected: Seq<bool>, keys: Seq<Key>) -> bool {
    &&& out.no_duplicates()
    &&& forall|a: int|
        0 <= a < out.len() ==> (#[trigger] out[a]) < selected.len() && selected[out[a] as int]
    &&& forall|i: int|
        0 <= i < selected.len() && #[trigger] selected[i] ==> exists|a: int|
            0 <= a < out.len() && #[trigger] out[a] == i
    &&& forall|a: int, b: int|
        0 <= a < b < out.len() ==> key_le(
            keys[#[trigger] out[a] as int],
            keys[#[trigger] out[b] as int],
        )
}

/// The selected places in order.
pub fn arrange(selected: &Vec<bool>, keys: &Vec<Key>) -> (r: Vec<usize>)
    requires
        selected@.len() == keys@.len(),
    ensures
        arranges(r@, selected@, keys@),
{
    let mut out: Vec<usize> = Vec::new();
    let mut i: usize = 0;
    while i < selected.len()
        invariant
            i <= selected@.len(),
            selected@.len() == keys@.len(),
            out@.no_duplicates(),
            forall|a: int| 0 <= a < out@.len() ==> (#[trigger] out@[a]) < i,
            forall|a: int| 0 <= a < out@.len() ==> selected@[#[trigger] out@[a] as int],
            forall|k: int|
                0 <= k < i && #[trigger] selected@[k] ==> exists|a: int|
                    0 <= a < out@.len() && #[trigger] out@[a] == k,
            forall|a: int, b: int|
                0 <= a < b < out@.len() ==> key_le(
                    keys@[#[trigger] out@[a] as int],
                    keys@[#[trigger] out@[b] as int],
                ),
        decreases selected@.len() - i,
    {
        if selected[i] {
            let ghost before = out@;
            let mut at: usize = out.len();
            while at > 0 && !no_later(keys[out[at - 1]], keys[i])
                invariant
                    at <= out@.len(),
                    out@ == before,
                    i < keys@.len(),
                    forall|a: int| 0 <= a < out@.len() ==> (#[trigger] out@[a]) < keys@.len(),
                    forall|a: int|
                        at <= a < out@.len() ==> key_le(
                            keys@[i as int],
                            keys@[#[trigger] out@[a] as int],
                        ),
                decreases at,
            {
                at = at - 1;
            }
            proof {
                if at > 0 {
                    assert(key_le(keys@[before[at - 1] as int], keys@[i as int]));
                }
            }
            out.insert(at, i);
            proof {
                assert(out@ == before.insert(at as int, i));
                assert forall|a: int, b: int| 0 <= a < b < out@.len() implies key_le(
                    keys@[#[trigger] out@[a] as int],
                    keys@[#[trigger] out@[b] as int],
                ) by {
                    let x = if a < at { a } else { a - 1 };
                    let y = if b < at { b } else { b - 1 };
                    if a != at && b != at {
                        assert(out@[a] == before[x] && out@[b] == before[y]);
                    } else if b == at {
                        assert(out@[a] == before[a]);
                        if a < at - 1 {
                            assert(key_le(
                                keys@[before[a] as int],
                                keys@[before[at - 1] as int],
                            ));
                        }
                    } else {
                        assert(out@[b] == before[y]);
                    }
                }
                assert forall|k: int| 0 <= k < i + 1 && #[trigger] selected@[k] implies exists|
                    a: int,
                |
                    0 <= a < out@.len() && #[trigger] out@[a] == k by {
                    if k == i {
                        assert(out@[at as int] == k);
                    } else {
                        let a = choose|a: int| 0 <= a < before.len() && #[trigger] before[a] == k;
                        let b = if a < at { a } else { a + 1 };
                        assert(out@[b] == k);
                    }
                }
                assert forall|a: int, b: int| 0 <= a < out@.len() && 0 <= b < out@.len() && a
                    != b implies out@[a] != out@[b] by {
                    let x = if a < at { a } else { a - 1 };
                    let y = if b < at { b } else { b - 1 };
                    if a != at {
                        assert(out@[a] == before[x]);
                    }
                    if b != at {
                        assert(out@[b] == before[y]);
                    }
                }
            }
        }
        i = i + 1;
    }
    out
}

} // verus!
