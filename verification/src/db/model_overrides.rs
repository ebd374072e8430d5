//! The models that a repository or an organisation asks for in place of the configured one.

use vstd::prelude::*;

use crate::db::rows::{left, let_go};
use crate::text::opt_str_view;

verus! {

/// An override of one repository or organisation, with who set it.
#[derive(Debug)]
pub struct ModelOverride {
    pub scope_id: i64,
    pub model: String,
    pub set_by: String,
    pub updated_at: i64,
}

/// The model that a scope asks for: the first override of its id.
pub open spec fn model_of(table: Seq<ModelOverride>, scope_id: i64) -> Option<Seq<char>>
    decreases table.len(),
{
    if table.len() == 0 {
        None
    } else if table[0].scope_id == scope_id {
        Some(table[0].model@)
    } else {
        model_of(table.drop_first(), scope_id)
    }
}

proof fn lemma_model_at(table: Seq<ModelOverride>, scope_id: i64, i: int)
    requires
        0 <= i < table.len(),
        table[i].scope_id == scope_id,
        forall|j: int| 0 <= j < i ==> (#[trigger] table[j]).scope_id != scope_id,
    ensures
        model_of(table, scope_id) == Some(table[i].model@),
    decreases i,
{
    if i > 0 {
        let rest = table.drop_first();
        assert(table[0].scope_id != scope_id);
        assert forall|j: int| 0 <= j < i - 1 implies (#[trigger] rest[j]).scope_id != scope_id by {
            assert(rest[j] == table[j + 1]);
        }
        assert(rest[i - 1] == table[i]);
        lemma_model_at(rest, scope_id, i - 1);
    }
}

proof fn lemma_no_model(table: Seq<ModelOverride>, scope_id: i64)
    requires
        forall|j: int| 0 <= j < table.len() ==> (#[trigger] table[j]).scope_id != scope_id,
    ensures
        model_of(table, scope_id) is None,
    decreases table.len(),
{
    if table.len() > 0 {
        let rest = table.drop_first();
        assert(table[0].scope_id != scope_id);
        assert forall|j: int| 0 <= j < rest.len() implies (#[trigger] rest[j]).scope_id
            != scope_id by {
            assert(rest[j] == table[j + 1]);
        }
        lemma_no_model(rest, scope_id);
    }
}

proof fn lemma_some_model(table: Seq<ModelOverride>, scope_id: i64)
    requires
        exists|j: int| 0 <= j < table.len() && (#[trigger] table[j]).scope_id == scope_id,
    ensures
        model_of(table, scope_id) is Some,
    decreases table.len(),
{
    let j = choose|j: int| 0 <= j < table.len() && (#[trigger] table[j]).scope_id == scope_id;
    if table[0].scope_id != scope_id {
        assert(table.drop_first()[j - 1] == table[j]);
        lemma_some_model(table.drop_first(), scope_id);
    }
}

proof fn lemma_model_push(table: Seq<ModelOverride>, o: ModelOverride, id: i64)
    ensures
        model_of(table.push(o), id) == (match model_of(table, id) {
            Some(m) => Some(m),
            None => if o.scope_id == id {
                Some(o.model@)
            } else {
                None
            },
        }),
    decreases table.len(),
{
    let after = table.push(o);
    if table.len() == 0 {
        assert(after.drop_first() =~= Seq::empty());
        assert(model_of(after.drop_first(), id) is None);
    } else {
        assert(after[0] == table[0]);
        assert(after.drop_first() =~= table.drop_first().push(o));
        lemma_model_push(table.drop_first(), o, id);
    }
}

proof fn lemma_model_update(table: Seq<ModelOverride>, i: int, o: ModelOverride, id: i64)
    requires
        0 <= i < table.len(),
        table[i].scope_id == o.scope_id,
        forall|j: int| 0 <= j < i ==> (#[trigger] table[j]).scope_id != o.scope_id,
    ensures
        model_of(table.update(i, o), id) == (if id == o.scope_id {
            Some(o.model@)
        } else {
            model_of(table, id)
        }),
    decreases i,
{
    let after = table.update(i, o);
    if i == 0 {
        assert(after.drop_first() =~= table.drop_first());
    } else {
        let rest = table.drop_first();
        assert(table[0].scope_id != o.scope_id);
        assert(after[0] == table[0]);
        assert(after.drop_first() =~= rest.update(i - 1, o));
        assert forall|j: int| 0 <= j < i - 1 implies (#[trigger] rest[j]).scope_id
            != o.scope_id by {
            assert(rest[j] == table[j + 1]);
        }
        lemma_model_update(rest, i - 1, o, id);
    }
}

fn place_of(table: &Vec<ModelOverride>, scope_id: i64) -> (r: Option<usize>)
    ensures
        match r {
            Some(i) => i < table@.len() && table@[i as int].scope_id == scope_id && forall|j: int|
                0 <= j < i ==> (#[trigger] table@[j]).scope_id != scope_id,
            None => forall|j: int|
                0 <= j < table@.len() ==> (#[trigger] table@[j]).scope_id != scope_id,
        },
{
    let mut i: usize = 0;
    while i < table.len()
        invariant
            i <= table@.len(),
            forall|j: int| 0 <= j < i ==> (#[trigger] table@[j]).scope_id != scope_id,
        decreases table@.len() - i,
    {
        if table[i].scope_id == scope_id {
            return Some(i);
        }
        i = i + 1;
    }
    None
}

fn get_override<'a>(table: &'a Vec<ModelOverride>, scope_id: i64) -> (r: Option<&'a str>)
    ensures
        opt_str_view(r) == model_of(table@, scope_id),
{
    match place_of(table, scope_id) {
        Some(i) => {
            proof {
                lemma_model_at(table@, scope_id, i as int);
            }
            Some(table[i].model.as_str())
        },
        None => {
            proof {
                lemma_no_model(table@, scope_id);
            }
            None
        },
    }
}

/// Whether `i` is the place of a scope's override; of several, the first.
pub open spec fn is_place(table: Seq<ModelOverride>, scope_id: i64, i: int) -> bool {
    &&& 0 <= i < table.len()
    &&& table[i].scope_id == scope_id
    &&& forall|j: int| 0 <= j < i ==> (#[trigger] table[j]).scope_id != scope_id
}

/// Whether an override is the one that was set, by whom and when.
pub open spec fn is_override(
    o: ModelOverride,
    scope_id: i64,
    model: Seq<char>,
    by: Seq<char>,
    now: i64,
) -> bool {
    o.scope_id == scope_id && o.model@ == model && o.set_by@ == by && o.updated_at == now
}

/// Whether `after` is a table with one override set: in the place of the scope's last one, or behind
/// the others where it had none. Every other row is as it was.
pub open spec fn is_set(
    before: Seq<ModelOverride>,
    after: Seq<ModelOverride>,
    scope_id: i64,
    model: Seq<char>,
    by: Seq<char>,
    now: i64,
) -> bool {
    ||| exists|i: int| #[trigger]
        is_place(before, scope_id, i) && after == before.update(i, after[i]) && is_override(
            after[i],
            scope_id,
            model,
            by,
            now,
        )
    ||| {
        &&& model_of(before, scope_id) is None
        &&& after.len() == before.len() + 1
        &&& after == before.push(after.last())
        &&& is_override(after.last(), scope_id, model, by, now)
    }
}

/// The overrides of a scope.
pub open spec fn of_scope(table: Seq<ModelOverride>, scope_id: i64) -> Seq<bool> {
    Seq::new(table.len(), |i: int| table[i].scope_id == scope_id)
}

/// Whether every scope has at most one override.
pub open spec fn one_each(table: Seq<ModelOverride>) -> bool {
    forall|i: int, j: int|
        0 <= i < j < table.len() ==> (#[trigger] table[i]).scope_id != (
        #[trigger] table[j]).scope_id
}

fn set_override(table: &mut Vec<ModelOverride>, scope_id: i64, model: &str, by: &str, now: i64)
    ensures
        is_set(old(table)@, final(table)@, scope_id, model@, by@, now),
{
    let ghost before = table@;
    let row = ModelOverride {
        scope_id,
        model: model.to_owned(),
        set_by: by.to_owned(),
        updated_at: now,
    };
    match place_of(table, scope_id) {
        Some(i) => {
            table.set(i, row);
            assert(is_place(before, scope_id, i as int));
            assert(table@ =~= before.update(i as int, table@[i as int]));
        },
        None => {
            table.push(row);
            proof {
                lemma_no_model(before, scope_id);
            }
            assert(table@ =~= before.push(table@.last()));
        },
    }
}

fn clear_override(table: &mut Vec<ModelOverride>, scope_id: i64) -> (r: bool)
    ensures
        final(table)@ == left(old(table)@, of_scope(old(table)@, scope_id)),
        r == (model_of(old(table)@, scope_id) is Some),
{
    let ghost before = table@;
    let mut gone: Vec<bool> = Vec::new();
    let mut removed: bool = false;
    let mut i: usize = 0;
    while i < table.len()
        invariant
            i <= table@.len(),
            table@ == before,
            gone@ =~= of_scope(before, scope_id).take(i as int),
            removed == exists|j: int| 0 <= j < i && (#[trigger] before[j]).scope_id == scope_id,
        decreases table@.len() - i,
    {
        let own: bool = table[i].scope_id == scope_id;
        gone.push(own);
        if own {
            assert(before[i as int].scope_id == scope_id);
            removed = true;
        }
        i = i + 1;
    }
    assert(gone@ =~= of_scope(before, scope_id));
    proof {
        if removed {
            lemma_some_model(before, scope_id);
        } else {
            lemma_no_model(before, scope_id);
        }
    }
    let_go(table, &gone);
    removed
}

/// A model that was set is the one its scope asks for, and every other scope asks for what it did; where
/// every scope had one override at most, it still has.
pub proof fn law_set_model_is_asked_for(
    before: Seq<ModelOverride>,
    after: Seq<ModelOverride>,
    scope_id: i64,
    model: Seq<char>,
    by: Seq<char>,
    now: i64,
    id: i64,
)
    requires
        is_set(before, after, scope_id, model, by, now),
    ensures
        model_of(after, id) == (if id == scope_id {
            Some(model)
        } else {
            model_of(before, id)
        }),
        one_each(before) ==> one_each(after),
{
    if exists|i: int| #[trigger]
        is_place(before, scope_id, i) && after == before.update(i, after[i]) && is_override(
            after[i],
            scope_id,
            model,
            by,
            now,
        ) {
        let i = choose|i: int| #[trigger]
            is_place(before, scope_id, i) && after == before.update(i, after[i]) && is_override(
                after[i],
                scope_id,
                model,
                by,
                now,
            );
        lemma_model_update(before, i, after[i], id);
    } else {
        lemma_model_push(before, after.last(), id);
        if exists|j: int| 0 <= j < before.len() && (#[trigger] before[j]).scope_id == scope_id {
            lemma_some_model(before, scope_id);
        }
    }
}

/// A scope whose model was cleared asks for none, and every other scope asks for what it did.
pub proof fn law_cleared_model_is_gone(before: Seq<ModelOverride>, scope_id: i64, id: i64)
    ensures
        model_of(left(before, of_scope(before, scope_id)), id) == (if id == scope_id {
            None
        } else {
            model_of(before, id)
        }),
    decreases before.len(),
{
    if before.len() > 0 {
        let init = before.drop_last();
        let rest = left(init, of_scope(init, scope_id));
        law_cleared_model_is_gone(init, scope_id, id);
        assert(of_scope(before, scope_id).drop_last() =~= of_scope(init, scope_id));
        assert(before =~= init.push(before.last()));
        lemma_model_push(init, before.last(), id);
        lemma_model_push(rest, before.last(), id);
    }
}

/// The model a repository asks for.
pub fn get_repo_model_override<'a>(table: &'a Vec<ModelOverride>, repository_id: i64) -> (r: Option<
    &'a str,
>)
    ensures
        opt_str_view(r) == model_of(table@, repository_id),
{
    get_override(table, repository_id)
}

/// The model an organisation asks for.
pub fn get_org_model_override<'a>(table: &'a Vec<ModelOverride>, installation_id: i64) -> (r: Option<
    &'a str,
>)
    ensures
        opt_str_view(r) == model_of(table@, installation_id),
{
    get_override(table, installation_id)
}

/// Sets the model of a repository, and records who did.
pub fn set_repo_model_override(
    table: &mut Vec<ModelOverride>,
    repository_id: i64,
    model: &str,
    by: &str,
    now: i64,
)
    ensures
        is_set(old(table)@, final(table)@, repository_id, model@, by@, now),
{
    set_override(table, repository_id, model, by, now);
}

/// Sets the model of an organisation, and records who did.
pub fn set_org_model_override(
    table: &mut Vec<ModelOverride>,
    installation_id: i64,
    model: &str,
    by: &str,
    now: i64,
)
    ensures
        is_set(old(table)@, final(table)@, installation_id, model@, by@, now),
{
    set_override(table, installation_id, model, by, now);
}

/// Clears the model of a repository; whether there was one.
pub fn clear_repo_model_override(table: &mut Vec<ModelOverride>, repository_id: i64) -> (r: bool)
    ensures
        final(table)@ == left(old(table)@, of_scope(old(table)@, repository_id)),
        r == (model_of(old(table)@, repository_id) is Some),
{
    clear_override(table, repository_id)
}

/// Clears the model of an organisation; whether there was one.
pub fn clear_org_model_override(table: &mut Vec<ModelOverride>, installation_id: i64) -> (r: bool)
    ensures
        final(table)@ == left(old(table)@, of_scope(old(table)@, installation_id)),
        r == (model_of(old(table)@, installation_id) is Some),
{
    clear_override(table, installation_id)
}

} // verus!
