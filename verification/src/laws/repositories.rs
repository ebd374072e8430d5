//! How repositories are recorded, approved, found, listed and paged.

use vstd::prelude::*;

use crate::db::repositories::{
    ahead, count_hits, decided, find_repository, first_seen, get_repository_by_id, get_task_context,
    goes_back, is_listing, is_page, is_place_of, is_unknown, last_created, lies_ahead, reopened,
    repo_hits, repo_status_name, repository_approved, repository_installation_id, repository_row,
    repository_status, runs_of, scan_keys, seen_again, shown_activity, with_status, RepoForReview,
    RepoStatus, RepositoryCursor, RepositoryPage, RepositoryRecord, RepositoryRow, RepositoryView,
    TaskContextRow,
};
use crate::db::search::law_plain_query_is_found_anywhere;
use crate::db::tasks::{runs, TaskRecord, TaskView};
use crate::laws::kept::lemma_kept;
use crate::laws::runs::{holds_anywhere, is_plain_query};
use crate::order::arranges;
use crate::platform::Platform;
use crate::text::{lowercase_of, opt_view, text_le};

verus! {

/// The three statuses and their names.
pub proof fn law_repository_status_names()
    ensures
        repo_status_name(RepoStatus::Pending) == "pending"@,
        repo_status_name(RepoStatus::Approved) == "approved"@,
        repo_status_name(RepoStatus::Disabled) == "disabled"@,
{
}

/// A repository that is new is recorded as it was seen: pending, approved by nobody, without a run.
pub proof fn law_new_repository_is_recorded_as_seen(
    id: i64,
    platform: Platform,
    platform_repo_id: i64,
    owner: Seq<char>,
    name: Seq<char>,
    branch: Seq<char>,
    installation: Option<i64>,
)
    ensures
        ({
            let r = first_seen(id, platform, platform_repo_id, owner, name, branch, installation);
            &&& r.id == id
            &&& r.platform == platform
            &&& r.platform_repo_id == platform_repo_id
            &&& r.owner == owner
            &&& r.name == name
            &&& r.default_branch == branch
            &&& r.installation_id == installation
            &&& r.status == RepoStatus::Pending
            &&& r.approved_at is None
            &&& r.approved_by is None
            &&& r.last_task_at == 0
        }),
{
}

/// A repository seen again takes the names and the branch it is seen with, keeps its installation where
/// none is told, and keeps everything else.
pub proof fn law_known_repository_is_brought_up_to_date(
    r: RepositoryView,
    owner: Seq<char>,
    name: Seq<char>,
    branch: Seq<char>,
    installation: Option<i64>,
)
    ensures
        ({
            let s = seen_again(r, owner, name, branch, installation);
            &&& s.owner == owner
            &&& s.name == name
            &&& s.default_branch == branch
            &&& installation is Some ==> s.installation_id == installation
            &&& installation is None ==> s.installation_id == r.installation_id
            &&& s.id == r.id
            &&& s.platform == r.platform
            &&& s.platform_repo_id == r.platform_repo_id
            &&& s.status == r.status
            &&& s.approved_at == r.approved_at
            &&& s.approved_by == r.approved_by
            &&& s.last_task_at == r.last_task_at
        }),
{
}

/// A disabled repository that is registered again is pending under the names it is registered with; its
/// branch, its runs and the record of its last approval stay.
pub proof fn law_disabled_repository_is_reopened(
    r: RepositoryView,
    owner: Seq<char>,
    name: Seq<char>,
    installation: Option<i64>,
)
    ensures
        ({
            let s = reopened(r, owner, name, installation);
            &&& s.status == RepoStatus::Pending
            &&& s.owner == owner
            &&& s.name == name
            &&& installation is Some ==> s.installation_id == installation
            &&& installation is None ==> s.installation_id == r.installation_id
            &&& s.id == r.id
            &&& s.platform == r.platform
            &&& s.platform_repo_id == r.platform_repo_id
            &&& s.default_branch == r.default_branch
            &&& s.approved_at == r.approved_at
            &&& s.approved_by == r.approved_by
            &&& s.last_task_at == r.last_task_at
        }),
{
}

/// A repository is known by its platform and its number there, both; a new one of either is another
/// repository.
pub proof fn law_repository_is_known_by_platform_and_number(
    table: Seq<RepositoryView>,
    r: RepositoryView,
    platform: Platform,
    number: i64,
)
    ensures
        is_unknown(table.push(r), platform, number) <==> is_unknown(table, platform, number) && (
        r.platform != platform || r.platform_repo_id != number),
        is_unknown(Seq::empty(), platform, number),
        forall|i: int| #[trigger]
            is_place_of(table, platform, number, i) ==> table[i].platform == platform
                && table[i].platform_repo_id == number && 0 <= i < table.len(),
{
    let longer = table.push(r);
    if is_unknown(longer, platform, number) {
        assert forall|j: int| 0 <= j < table.len() implies !((#[trigger] table[j]).platform
            == platform && table[j].platform_repo_id == number) by {
            assert(longer[j] == table[j]);
        }
        assert(longer[table.len() as int] == r);
    }
}

/// An administrator's decision sets the status; an approval records who gave it and when, and any other
/// decision clears that record.
pub proof fn law_decision_is_recorded(
    r: RepositoryView,
    status: RepoStatus,
    by: Option<Seq<char>>,
    now: i64,
)
    ensures
        ({
            let d = decided(r, status, by, now);
            &&& d.status == status
            &&& status == RepoStatus::Approved ==> d.approved_at == Some(now) && d.approved_by == by
            &&& status == RepoStatus::Pending ==> d.approved_at is None && d.approved_by is None
            &&& status == RepoStatus::Disabled ==> d.approved_at is None && d.approved_by is None
            &&& is_same_repository(d, r)
        }),
{
}

/// A status that a platform sets never makes up an approval: one on record stays with an approved
/// repository, and is cleared with any other.
pub proof fn law_platform_status_makes_up_no_approval(r: RepositoryView, status: RepoStatus)
    ensures
        ({
            let d = with_status(r, status);
            &&& d.status == status
            &&& status == RepoStatus::Approved ==> d.approved_at == r.approved_at && d.approved_by
                == r.approved_by
            &&& status == RepoStatus::Pending ==> d.approved_at is None && d.approved_by is None
            &&& status == RepoStatus::Disabled ==> d.approved_at is None && d.approved_by is None
            &&& is_same_repository(d, r)
        }),
{
}

/// Whether two repositories are the same but for their approval.
pub open spec fn is_same_repository(a: RepositoryView, b: RepositoryView) -> bool {
    &&& a.id == b.id
    &&& a.platform == b.platform
    &&& a.platform_repo_id == b.platform_repo_id
    &&& a.owner == b.owner
    &&& a.name == b.name
    &&& a.default_branch == b.default_branch
    &&& a.installation_id == b.installation_id
    &&& a.last_task_at == b.last_task_at
}

/// Work is done for a repository exactly where it is known and approved.
pub proof fn law_work_needs_an_approved_repository(repo: Option<&RepositoryRecord>, r: bool)
    requires
        call_ensures(repository_approved, (repo,), r),
    ensures
        r <==> repo is Some && repo->0.status == RepoStatus::Approved,
{
}

/// What is told of a repository that may not be there is its own.
pub proof fn law_repository_tells_its_own(
    repo: Option<&RepositoryRecord>,
    status: Option<RepoStatus>,
    installation: Option<i64>,
)
    requires
        call_ensures(repository_status, (repo,), status),
        call_ensures(repository_installation_id, (repo,), installation),
    ensures
        repo is None ==> status is None && installation is None,
        repo is Some ==> status == Some(repo->0.status) && installation == repo->0.installation_id,
{
}

/// A repository is found by its forge and, whatever the case of their letters, its owner and name; one
/// that is there is found, and what is told is its id, its installation and the name of its status.
pub proof fn law_repository_is_found_whatever_the_case(
    table: &Vec<RepositoryRecord>,
    platform: Platform,
    owner: &str,
    name: &str,
    r: Option<RepoForReview>,
    i: int,
)
    requires
        call_ensures(find_repository, (table, platform, owner, name), r),
        0 <= i < table@.len(),
    ensures
        table@[i].platform == platform && lowercase_of(table@[i].owner@) == lowercase_of(owner@)
            && lowercase_of(table@[i].name@) == lowercase_of(name@) ==> r is Some,
        r is Some ==> exists|j: int|
            0 <= j < table@.len() && (#[trigger] table@[j]).platform == platform && lowercase_of(
                table@[j].owner@,
            ) == lowercase_of(owner@) && lowercase_of(table@[j].name@) == lowercase_of(name@)
                && r->0.id == table@[j].id && r->0.installation_id == table@[j].installation_id
                && r->0.status@ == (match table@[j].status {
                RepoStatus::Pending => "pending"@,
                RepoStatus::Approved => "approved"@,
                RepoStatus::Disabled => "disabled"@,
            }),
{
    assert(table@[i]@.owner == table@[i].owner@);
    if r is Some {
        let j = choose|j: int|
            0 <= j < table@.len() && crate::db::repositories::goes_by(
                #[trigger] table@[j]@,
                platform,
                owner@,
                name@,
            ) && crate::db::repositories::is_for_review(r->0, table@[j]@);
        assert(table@[j].platform == platform);
    }
}

/// A run counts toward the repository it is for and no other; the last run of a repository is one of
/// its runs that none of its runs was created after.
pub proof fn law_activity_is_that_of_its_own_runs(table: Seq<TaskView>, id: i64, t: TaskView)
    ensures
        runs_of(table, id).contains(t) <==> table.contains(t) && t.repository_id == id,
        runs_of(table.push(t), id).len() == runs_of(table, id).len() + (if t.repository_id == id {
            1nat
        } else {
            0nat
        }),
        runs_of(Seq::empty(), id).len() == 0,
        last_created(runs_of(table, id)) is None <==> runs_of(table, id).len() == 0,
        last_created(runs_of(table, id)) is Some ==> (exists|k: int|
            0 <= k < runs_of(table, id).len() && (#[trigger] runs_of(table, id)[k]).created_at
                == last_created(runs_of(table, id))->0) && forall|k: int|
            0 <= k < runs_of(table, id).len() ==> (#[trigger] runs_of(table, id)[k]).created_at
                <= last_created(runs_of(table, id))->0,
{
    reveal(Seq::filter);
    assert(table.push(t).drop_last() =~= table);
    lemma_kept(table, |t: TaskView| t.repository_id == id, t);
    lemma_last_created(runs_of(table, id));
}

proof fn lemma_last_created(table: Seq<TaskView>)
    ensures
        last_created(table) is None <==> table.len() == 0,
        last_created(table) is Some ==> (exists|k: int|
            0 <= k < table.len() && (#[trigger] table[k]).created_at == last_created(table)->0)
            && forall|k: int|
            0 <= k < table.len() ==> (#[trigger] table[k]).created_at <= last_created(table)->0,
    decreases table.len(),
{
    if table.len() > 0 {
        let init = table.drop_last();
        lemma_last_created(init);
        assert forall|k: int| 0 <= k < table.len() implies (#[trigger] table[k]).created_at
            <= last_created(table)->0 by {
            if k < init.len() {
                assert(init[k] == table[k]);
            }
        }
        assert(table[table.len() - 1] == table.last());
        if init.len() > 0 {
            let k = choose|k: int|
                0 <= k < init.len() && (#[trigger] init[k]).created_at == last_created(init)->0;
            assert(table[k] == init[k]);
        }
    }
}

/// Whether a row shows a repository field by field, active exactly where it is approved.
pub open spec fn is_shown(row: RepositoryRow, r: RepositoryView) -> bool {
    &&& row.id == r.id
    &&& row.platform_repo_id == r.platform_repo_id
    &&& row.platform == r.platform
    &&& row.owner@ == r.owner
    &&& row.name@ == r.name
    &&& row.default_branch@ == r.default_branch
    &&& row.status == r.status
    &&& row.active <==> r.status == RepoStatus::Approved
    &&& row.approved_at == r.approved_at
    &&& opt_view(row.approved_by) == r.approved_by
}

/// A repository is shown as it is, with how many runs it has and when the last was created.
pub proof fn law_repository_is_shown_as_it_is(
    repo: &RepositoryRecord,
    tasks: &Vec<TaskRecord>,
    r: RepositoryRow,
)
    requires
        call_ensures(repository_row, (repo, tasks), r),
    ensures
        is_shown(r, repo@),
        r.task_count == runs_of(runs(tasks@), repo.id).len(),
        r.last_task_at == last_created(runs_of(runs(tasks@), repo.id)),
{
}

/// A repository is shown by its id where it is there, and else not.
pub proof fn law_repository_is_shown_by_its_id(
    table: &Vec<RepositoryRecord>,
    tasks: &Vec<TaskRecord>,
    id: i64,
    r: Option<RepositoryRow>,
    i: int,
)
    requires
        call_ensures(get_repository_by_id, (table, tasks, id), r),
        0 <= i < table@.len(),
    ensures
        table@[i].id == id ==> r is Some,
        r is Some ==> exists|j: int|
            0 <= j < table@.len() && (#[trigger] table@[j]).id == id && is_shown(r->0, table@[j]@),
        r is Some ==> r->0.task_count == runs_of(runs(tasks@), id).len() && r->0.last_task_at
            == last_created(runs_of(runs(tasks@), id)),
{
    if r is Some {
        let j = choose|j: int|
            0 <= j < table@.len() && (#[trigger] table@[j]).id == id
                && crate::db::repositories::shows(
                r->0,
                table@[j]@,
                runs_of(runs(tasks@), id).len(),
                last_created(runs_of(runs(tasks@), id)),
            );
        assert(is_shown(r->0, table@[j]@));
    }
}

/// A listing shows each repository of the status that is asked for, and no other: the latest active
/// first, those that never had a run last, and of one activity by owner and name.
pub proof fn law_listing_shows_the_latest_active_first(
    rows: Seq<RepositoryRow>,
    places: Seq<int>,
    table: Seq<RepositoryView>,
    tasks: Seq<TaskView>,
    status: Option<RepoStatus>,
    i: int,
    a: int,
    b: int,
)
    requires
        is_listing(rows, places, table, tasks, status),
        0 <= i < table.len(),
        0 <= a < b < rows.len(),
    ensures
        places.contains(i) <==> status is None || table[i].status == status->0,
        is_shown(rows[a], table[places[a]]),
        rows[a].task_count == runs_of(tasks, table[places[a]].id).len(),
        rows[a].last_task_at == last_created(runs_of(tasks, table[places[a]].id)),
        places[a] != places[b],
        rows[b].last_task_at is Some ==> rows[a].last_task_at is Some && rows[a].last_task_at->0
            >= rows[b].last_task_at->0,
        rows[a].last_task_at == rows[b].last_task_at && rows[a].owner@ != rows[b].owner@
            ==> text_le(rows[a].owner@, rows[b].owner@),
        rows[a].last_task_at == rows[b].last_task_at && rows[a].owner@ == rows[b].owner@
            ==> text_le(rows[a].name@, rows[b].name@),
{
    if places.contains(i) {
        let k = choose|k: int| 0 <= k < places.len() && places[k] == i;
        assert(0 <= places[k] < table.len());
    }
    assert(0 <= places[a] < table.len());
    assert(crate::db::repositories::row_le(rows[a], rows[b]));
}

/// A repository is found by a query in its owner, a slash and its name, whatever the case, and without a
/// query always.
pub proof fn law_repository_is_searched_by_owner_and_name(
    table: Seq<RepositoryView>,
    query: Seq<char>,
    i: int,
)
    requires
        is_plain_query(query),
        0 <= i < table.len(),
    ensures
        repo_hits(table, None)[i],
        repo_hits(table, Some(query))[i] <==> holds_anywhere(
            table[i].owner + "/"@ + table[i].name,
            query,
        ),
{
    law_plain_query_is_found_anywhere(query, table[i].owner + "/"@ + table[i].name);
}

/// A page shows what matches, the latest active first and of one activity the greater id first, whichever
/// way it was reached; it is as long as asked for unless nothing more is there.
pub proof fn law_page_shows_the_latest_active_first(
    p: RepositoryPage,
    scan: Seq<usize>,
    table: Seq<RepositoryView>,
    hits: Seq<bool>,
    cursor: Option<RepositoryCursor>,
    page_size: usize,
    a: int,
    b: int,
)
    requires
        hits.len() == table.len(),
        arranges(scan, ahead(table, hits, cursor), scan_keys(table, goes_back(cursor))),
        is_page(p, scan, table, hits, cursor, page_size),
        0 <= a < b < p.rows@.len(),
    ensures
        p.rows@.len() <= page_size,
        p.rows@[a] < table.len(),
        p.rows@[a] != p.rows@[b],
        hits[p.rows@[a] as int],
        hits[p.rows@[b] as int],
        table[p.rows@[a] as int].last_task_at >= table[p.rows@[b] as int].last_task_at,
        table[p.rows@[a] as int].last_task_at == table[p.rows@[b] as int].last_task_at
            ==> table[p.rows@[a] as int].id >= table[p.rows@[b] as int].id,
{
    let n = p.rows@.len();
    let x = if goes_back(cursor) {
        n - 1 - a
    } else {
        a
    };
    let y = if goes_back(cursor) {
        n - 1 - b
    } else {
        b
    };
    assert(p.rows@[a] == scan[x]);
    assert(p.rows@[b] == scan[y]);
    assert(ahead(table, hits, cursor)[scan[x] as int]);
    assert(ahead(table, hits, cursor)[scan[y] as int]);
}

/// A page that was reached going on holds only rows less recent than where it goes on from, one reached
/// going back only rows more recent, and the first page may hold any.
pub proof fn law_page_lies_ahead_of_its_cursor(r: RepositoryView, at: i64, id: i64)
    ensures
        lies_ahead(r, None),
        lies_ahead(r, Some(RepositoryCursor::After(at, id))) <==> r.last_task_at < at || (
        r.last_task_at == at && r.id < id),
        lies_ahead(r, Some(RepositoryCursor::Before(at, id))) <==> r.last_task_at > at || (
        r.last_task_at == at && r.id > id),
{
}

/// A page says how many rows match, not only how many it shows; it offers to go on where something
/// follows or it was reached going back, and to go back where it was reached going on or something
/// precedes; both from its own ends.
pub proof fn law_page_offers_its_neighbours(
    p: RepositoryPage,
    scan: Seq<usize>,
    table: Seq<RepositoryView>,
    hits: Seq<bool>,
    cursor: Option<RepositoryCursor>,
    page_size: usize,
)
    requires
        hits.len() == table.len(),
        page_size > 0,
        arranges(scan, ahead(table, hits, cursor), scan_keys(table, goes_back(cursor))),
        is_page(p, scan, table, hits, cursor, page_size),
    ensures
        p.total == count_hits(hits),
        p.rows@.len() == (if scan.len() <= page_size {
            scan.len() as int
        } else {
            page_size as int
        }),
        scan.len() == 0 ==> p.next is None && p.prev is None,
        cursor is None ==> p.prev is None && (p.next is Some <==> scan.len() > page_size),
        cursor matches Some(RepositoryCursor::After(_, _)) ==> (p.next is Some <==> scan.len()
            > page_size) && (p.prev is Some <==> scan.len() > 0),
        cursor matches Some(RepositoryCursor::Before(_, _)) ==> (p.prev is Some <==> scan.len()
            > page_size) && (p.next is Some <==> scan.len() > 0),
        p.next is Some ==> p.next == Some(
            (
                table[p.rows@[p.rows@.len() - 1] as int].last_task_at,
                table[p.rows@[p.rows@.len() - 1] as int].id,
            ),
        ),
        p.prev is Some ==> p.prev == Some(
            (table[p.rows@[0] as int].last_task_at, table[p.rows@[0] as int].id),
        ),
{
}

/// One more row raises the total by one where it matches, and else not.
pub proof fn law_total_counts_each_match(hits: Seq<bool>, hit: bool)
    ensures
        count_hits(hits.push(hit)) == count_hits(hits) + (if hit {
            1nat
        } else {
            0nat
        }),
        count_hits(Seq::empty()) == 0,
{
    assert(hits.push(hit).drop_last() =~= hits);
}

/// A repository without a run shows no activity, and any other shows when its last run was created.
pub proof fn law_no_activity_is_shown_without_a_run(at: i64, r: Option<i64>)
    requires
        call_ensures(shown_activity, (at,), r),
    ensures
        at == 0 <==> r is None,
        at != 0 ==> r == Some(at),
{
}

/// What the runner is told of a run is the run's own and its repository's, and it is told where both are
/// there.
pub proof fn law_runner_is_told_of_run_and_repository(
    tasks: &Vec<TaskRecord>,
    table: &Vec<RepositoryRecord>,
    id: u128,
    r: Option<TaskContextRow>,
)
    requires
        call_ensures(get_task_context, (tasks, table, id), r),
    ensures
        r is Some ==> exists|i: int, j: int|
            0 <= i < tasks@.len() && 0 <= j < table@.len() && (#[trigger] tasks@[i]).id == id && (
            #[trigger] table@[j]).id == tasks@[i].repository_id && tells_of(
                r->0,
                tasks@[i]@,
                table@[j]@,
            ),
        (forall|i: int| 0 <= i < tasks@.len() ==> (#[trigger] tasks@[i]).id != id) ==> r is None,
        (exists|i: int| 0 <= i < tasks@.len() && (#[trigger] tasks@[i]).id == id) && (forall|
            i: int,
        |
            0 <= i < tasks@.len() && (#[trigger] tasks@[i]).id == id ==> exists|j: int|
                0 <= j < table@.len() && (#[trigger] table@[j]).id == tasks@[i].repository_id)
            ==> r is Some,
{
    if r is Some {
        let (i, j) = choose|i: int, j: int|
            0 <= i < tasks@.len() && 0 <= j < table@.len() && (#[trigger] tasks@[i]).id == id && (
            #[trigger] table@[j]).id == tasks@[i].repository_id
                && crate::db::repositories::is_context(r->0, tasks@[i]@, table@[j]@);
        assert(tells_of(r->0, tasks@[i]@, table@[j]@));
    }
}

/// Whether a context tells of a run and a repository, field by field.
pub open spec fn tells_of(c: TaskContextRow, t: TaskView, r: RepositoryView) -> bool {
    &&& c.id == t.id
    &&& c.repository_id == t.repository_id
    &&& c.installation_id == t.installation_id
    &&& c.owner@ == r.owner
    &&& c.name@ == r.name
    &&& c.default_branch@ == r.default_branch
    &&& c.platform == r.platform
    &&& c.target_type@ == t.target_type
    &&& c.target_id == t.target_id
    &&& c.command_text@ == t.command_text
    &&& c.kind@ == t.kind
    &&& c.preset@ == t.preset
    &&& c.entry_point@ == t.entry_point
    &&& opt_view(c.base_sha) == t.base_sha
    &&& opt_view(c.head_sha) == t.head_sha
    &&& c.trigger_comment_id == t.trigger_comment_id
    &&& opt_view(c.model_override) == t.model_override
    &&& c.check_runs_enabled == t.check_runs_enabled
}

} // verus!
