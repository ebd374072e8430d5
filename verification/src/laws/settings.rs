//! What repositories and organisations ask for in place of what is configured, and how a search is
//! written.

use vstd::prelude::*;

use crate::db::model_overrides::{
    get_org_model_override, get_repo_model_override, is_set, model_of, of_scope, ModelOverride,
};
use crate::db::repo_settings::{no_settings, patched, PatchView, SettingsView};
use crate::db::rows::left;
use crate::db::search::{fits, pieces_of};
use crate::platform::{platform_name, platform_of, Platform};
use crate::text::opt_str_view;

verus! {

/// A patch sets what it sets, clears what it clears and leaves the rest, setting by setting.
pub proof fn law_patch_touches_only_what_it_names(s: SettingsView, p: PatchView)
    ensures
        ({
            let t = patched(s, p);
            &&& t.check_run_reporting == (if p.check_run_reporting is Some {
                p.check_run_reporting->0
            } else {
                s.check_run_reporting
            })
            &&& t.review_on_pr_open == (if p.review_on_pr_open is Some {
                p.review_on_pr_open->0
            } else {
                s.review_on_pr_open
            })
            &&& t.review_on_push == (if p.review_on_push is Some {
                p.review_on_push->0
            } else {
                s.review_on_push
            })
            &&& t.push_strategy == (if p.push_strategy is Some {
                p.push_strategy->0
            } else {
                s.push_strategy
            })
            &&& t.push_debounce_seconds == (if p.push_debounce_seconds is Some {
                p.push_debounce_seconds->0
            } else {
                s.push_debounce_seconds
            })
            &&& t.dedup_scope == (if p.dedup_scope is Some {
                p.dedup_scope->0
            } else {
                s.dedup_scope
            })
        }),
{
}

/// A repository starts with nothing overridden.
pub proof fn law_nothing_is_overridden_at_first()
    ensures
        no_settings().check_run_reporting is None,
        no_settings().review_on_pr_open is None,
        no_settings().review_on_push is None,
        no_settings().push_strategy is None,
        no_settings().push_debounce_seconds is None,
        no_settings().dedup_scope is None,
{
}

/// An override is asked for by its own scope: where one is there it is found, and what is found is of
/// the scope.
pub proof fn law_override_is_of_its_scope(table: Seq<ModelOverride>, scope_id: i64, i: int)
    requires
        0 <= i < table.len(),
    ensures
        table[i].scope_id == scope_id ==> model_of(table, scope_id) is Some,
        model_of(table, scope_id) is Some ==> exists|j: int|
            0 <= j < table.len() && (#[trigger] table[j]).scope_id == scope_id && table[j].model@
                == model_of(table, scope_id)->0,
    decreases table.len(),
{
    lemma_model_of(table, scope_id);
}

proof fn lemma_model_of(table: Seq<ModelOverride>, scope_id: i64)
    ensures
        model_of(table, scope_id) is None ==> forall|j: int|
            0 <= j < table.len() ==> (#[trigger] table[j]).scope_id != scope_id,
        model_of(table, scope_id) is Some ==> exists|j: int|
            0 <= j < table.len() && (#[trigger] table[j]).scope_id == scope_id && table[j].model@
                == model_of(table, scope_id)->0,
    decreases table.len(),
{
    if table.len() > 0 {
        let rest = table.drop_first();
        lemma_model_of(rest, scope_id);
        if table[0].scope_id != scope_id {
            assert forall|j: int|
                model_of(table, scope_id) is None && 0 <= j < table.len() implies (
            #[trigger] table[j]).scope_id != scope_id by {
                if j > 0 {
                    assert(rest[j - 1] == table[j]);
                }
            }
            if model_of(table, scope_id) is Some {
                let j = choose|j: int|
                    0 <= j < rest.len() && (#[trigger] rest[j]).scope_id == scope_id
                        && rest[j].model@ == model_of(rest, scope_id)->0;
                assert(table[j + 1] == rest[j]);
            }
        }
    }
}

/// What is set is recorded with who set it and when, and no override of another scope is touched.
pub proof fn law_override_is_recorded_with_who_set_it(
    before: Seq<ModelOverride>,
    after: Seq<ModelOverride>,
    scope_id: i64,
    model: Seq<char>,
    by: Seq<char>,
    now: i64,
    i: int,
)
    requires
        is_set(before, after, scope_id, model, by, now),
        0 <= i < before.len(),
    ensures
        exists|k: int|
            0 <= k < after.len() && (#[trigger] after[k]).scope_id == scope_id && after[k].model@
                == model && after[k].set_by@ == by && after[k].updated_at == now,
        before[i].scope_id != scope_id ==> i < after.len() && after[i] == before[i],
        after.len() <= before.len() + 1,
{
    if exists|k: int| #[trigger]
        crate::db::model_overrides::is_place(before, scope_id, k) && after == before.update(
            k,
            after[k],
        ) && crate::db::model_overrides::is_override(after[k], scope_id, model, by, now) {
        let k = choose|k: int| #[trigger]
            crate::db::model_overrides::is_place(before, scope_id, k) && after == before.update(
                k,
                after[k],
            ) && crate::db::model_overrides::is_override(after[k], scope_id, model, by, now);
        assert(after[k].scope_id == scope_id);
        if before[i].scope_id != scope_id {
            assert(i != k);
            assert(before.update(k, after[k])[i] == before[i]);
        }
    } else {
        assert(after[after.len() - 1].scope_id == scope_id);
        assert(before.push(after.last())[i] == before[i]);
    }
}

/// Clearing takes every override of the scope and none of another.
pub proof fn law_clearing_takes_one_scope(
    table: Seq<ModelOverride>,
    scope_id: i64,
    o: ModelOverride,
)
    ensures
        left(table, of_scope(table, scope_id)).contains(o) <==> table.contains(o) && o.scope_id
            != scope_id,
    decreases table.len(),
{
    if table.len() > 0 {
        let init = table.drop_last();
        law_clearing_takes_one_scope(init, scope_id, o);
        assert(of_scope(table, scope_id).drop_last() =~= of_scope(init, scope_id));
        let before = left(init, of_scope(init, scope_id));
        let after = left(table, of_scope(table, scope_id));
        if before.contains(o) {
            let k = choose|k: int| 0 <= k < before.len() && before[k] == o;
            assert(after[k] == o);
            let j = choose|j: int| 0 <= j < init.len() && init[j] == o;
            assert(table[j] == o);
        }
        if after.contains(o) {
            let k = choose|k: int| 0 <= k < after.len() && after[k] == o;
            if k < before.len() {
                assert(before[k] == o);
            } else {
                assert(table[table.len() - 1] == o);
            }
        }
        if table.contains(o) && o.scope_id != scope_id {
            let j = choose|j: int| 0 <= j < table.len() && table[j] == o;
            if j < init.len() {
                assert(init[j] == o);
            } else {
                assert(after[after.len() - 1] == o);
            }
        }
    }
}

/// A repository and an organisation are asked for the same way, by their own id.
pub proof fn law_model_is_asked_for_by_id(
    table: &Vec<ModelOverride>,
    id: i64,
    repo: Option<&str>,
    org: Option<&str>,
)
    requires
        call_ensures(get_repo_model_override, (table, id), repo),
        call_ensures(get_org_model_override, (table, id), org),
    ensures
        opt_str_view(repo) == opt_str_view(org),
        repo is None <==> model_of(table@, id) is None,
{
}

/// The three forges and their names.
pub proof fn law_platform_names(name: Seq<char>)
    ensures
        platform_name(Platform::GitHub) == "github"@,
        platform_name(Platform::GitLab) == "gitlab"@,
        platform_name(Platform::Bitbucket) == "bitbucket"@,
        platform_of(name) == Some(Platform::GitHub) <==> name == "github"@,
        platform_of(name) == Some(Platform::GitLab) <==> name == "gitlab"@,
        platform_of(name) == Some(Platform::Bitbucket) <==> name == "bitbucket"@,
{
    reveal_strlit("github");
    reveal_strlit("gitlab");
    reveal_strlit("bitbucket");
    assert("github"@[3] != "gitlab"@[3]);
    assert("bitbucket"@.len() != "github"@.len());
    assert("bitbucket"@.len() != "gitlab"@.len());
}

/// An underscore in a pattern stands for exactly one character, whichever it is.
pub proof fn law_underscore_stands_for_one_character(pattern: Seq<char>, s: Seq<char>)
    ensures
        fits(pieces_of(seq!['_'] + pattern), s) <==> s.len() > 0 && fits(
            pieces_of(pattern),
            s.skip(1),
        ),
{
    assert((seq!['_'] + pattern).skip(1) =~= pattern);
    assert(pieces_of(seq!['_'] + pattern).skip(1) =~= pieces_of(pattern));
}

/// A percent sign in a pattern stands for any characters, or none.
pub proof fn law_percent_stands_for_any_characters(pattern: Seq<char>, s: Seq<char>)
    ensures
        fits(pieces_of(seq!['%'] + pattern), s) <==> exists|k: int|
            0 <= k <= s.len() && fits(pieces_of(pattern), #[trigger] s.skip(k)),
    decreases s.len(),
{
    let whole = pieces_of(seq!['%'] + pattern);
    assert((seq!['%'] + pattern).skip(1) =~= pattern);
    assert(whole.skip(1) =~= pieces_of(pattern));
    assert(s.skip(0) =~= s);
    if s.len() > 0 {
        let rest = s.skip(1);
        law_percent_stands_for_any_characters(pattern, rest);
        if fits(whole, rest) {
            let k = choose|k: int|
                0 <= k <= rest.len() && fits(pieces_of(pattern), #[trigger] rest.skip(k));
            assert(s.skip(k + 1) =~= rest.skip(k));
        }
        if exists|k: int| 0 <= k <= s.len() && fits(pieces_of(pattern), #[trigger] s.skip(k)) {
            let k = choose|k: int|
                0 <= k <= s.len() && fits(pieces_of(pattern), #[trigger] s.skip(k));
            if k > 0 {
                assert(rest.skip(k - 1) =~= s.skip(k));
            }
        }
    }
}

/// A character behind a backslash stands for itself, whatever it is; so does every other character that
/// is neither sign.
pub proof fn law_character_stands_for_itself(pattern: Seq<char>, c: char, s: Seq<char>)
    ensures
        fits(pieces_of(seq!['\\', c] + pattern), s) <==> s.len() > 0 && s[0] == c && fits(
            pieces_of(pattern),
            s.skip(1),
        ),
        c != '%' && c != '_' && c != '\\' ==> (fits(pieces_of(seq![c] + pattern), s) <==> s.len() > 0
            && s[0] == c && fits(pieces_of(pattern), s.skip(1))),
        fits(pieces_of(Seq::empty()), s) <==> s.len() == 0,
{
    assert((seq!['\\', c] + pattern).skip(2) =~= pattern);
    assert(pieces_of(seq!['\\', c] + pattern).skip(1) =~= pieces_of(pattern));
    assert((seq![c] + pattern).skip(1) =~= pattern);
    if c != '%' && c != '_' && c != '\\' {
        assert(pieces_of(seq![c] + pattern).skip(1) =~= pieces_of(pattern));
    }
}

} // verus!
