//! Rows of a table: letting some of them go, and looking for one value among several.

use vstd::prelude::*;

use crate::text;
use crate::text::views;

verus! {

/// What is left of a table when some rows are gone.
pub open spec fn left<R>(table: Seq<R>, gone: Seq<bool>) -> Seq<R>
    decreases table.len(),
{
    if table.len() == 0 {
        Seq::empty()
    } else if gone.last() {
        left(table.drop_last(), gone.drop_last())
    } else {
        left(table.drop_last(), gone.drop_last()).push(table.last())
    }
}

/// A row that is not gone is left.
pub proof fn lemma_left_spares<R>(table: Seq<R>, gone: Seq<bool>, i: int)
    requires
        gone.len() == table.len(),
        0 <= i < table.len(),
        !gone[i],
    ensures
        left(table, gone).contains(table[i]),
    decreases table.len(),
{
    let init = left(table.drop_last(), gone.drop_last());
    if i == table.len() - 1 {
        assert(left(table, gone)[init.len() as int] == table[i]);
    } else {
        lemma_left_spares(table.drop_last(), gone.drop_last(), i);
        let k = choose|k: int| 0 <= k < init.len() && init[k] == table[i];
        assert(left(table, gone)[k] == table[i]);
    }
}

/// Letting rows go and taking the values of rows can be done in either order.
pub proof fn lemma_left_map<R, V>(table: Seq<R>, gone: Seq<bool>, value: spec_fn(R) -> V)
    requires
        gone.len() == table.len(),
    ensures
        left(table, gone).map_values(value) == left(table.map_values(value), gone),
    decreases table.len(),
{
    if table.len() > 0 {
        lemma_left_map(table.drop_last(), gone.drop_last(), value);
        assert(table.map_values(value).drop_last() =~= table.drop_last().map_values(value));
        if !gone.last() {
            assert(left(table.drop_last(), gone.drop_last()).push(table.last()).map_values(value)
                =~= left(table.drop_last(), gone.drop_last()).map_values(value).push(
                value(table.last()),
            ));
        }
    } else {
        assert(left(table, gone).map_values(value) =~= Seq::empty());
    }
}

/// Lets rows go; how many they were.
pub fn let_go<R>(table: &mut Vec<R>, gone: &Vec<bool>) -> (r: usize)
    requires
        gone@.len() == old(table)@.len(),
    ensures
        final(table)@ == left(old(table)@, gone@),
        r == old(table)@.len() - final(table)@.len(),
{
    let ghost before = table@;
    let total: usize = table.len();
    let mut rest: Vec<R> = Vec::new();
    std::mem::swap(&mut rest, table);
    let mut out: Vec<R> = Vec::new();
    let mut i: usize = 0;
    proof {
        assert(before.take(0) =~= Seq::empty());
        assert(gone@.take(0) =~= Seq::empty());
        assert(rest@ =~= before.skip(0));
    }
    while rest.len() > 0
        invariant
            i <= before.len(),
            total == before.len(),
            gone@.len() == before.len(),
            rest@ == before.skip(i as int),
            out@ == left(before.take(i as int), gone@.take(i as int)),
            out@.len() <= i,
        decreases rest@.len(),
    {
        let row: R = rest.remove(0);
        proof {
            assert(row == before[i as int]);
            assert(rest@ =~= before.skip(i + 1));
            assert(before.take(i + 1).drop_last() =~= before.take(i as int));
            assert(gone@.take(i + 1).drop_last() =~= gone@.take(i as int));
        }
        if !gone[i] {
            out.push(row);
        }
        i = i + 1;
    }
    assert(before.take(i as int) =~= before);
    assert(gone@.take(i as int) =~= gone@);
    std::mem::swap(&mut out, table);
    total - table.len()
}

/// Whether a number is among others.
pub fn holds_id(ids: &Vec<i64>, id: i64) -> (r: bool)
    ensures
        r == ids@.contains(id),
{
    let mut i: usize = 0;
    while i < ids.len()
        invariant
            i <= ids@.len(),
            forall|j: int| 0 <= j < i ==> ids@[j] != id,
        decreases ids@.len() - i,
    {
        if ids[i] == id {
            assert(ids@[i as int] == id);
            return true;
        }
        i = i + 1;
    }
    false
}

/// Whether a text is among others.
pub fn holds_text(texts: &Vec<String>, s: &str) -> (r: bool)
    ensures
        r == views(texts@).contains(s@),
{
    let mut i: usize = 0;
    while i < texts.len()
        invariant
            i <= texts@.len(),
            forall|j: int| 0 <= j < i ==> (#[trigger] texts@[j])@ != s@,
        decreases texts@.len() - i,
    {
        if text::same(texts[i].as_str(), s) {
            assert(views(texts@)[i as int] == s@);
            return true;
        }
        i = i + 1;
    }
    assert forall|j: int| 0 <= j < views(texts@).len() implies views(texts@)[j] != s@ by {
        assert(texts@[j]@ != s@);
    }
    false
}

} // verus!
