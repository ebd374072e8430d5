//! Repositories, their approval and their listing.
//!
//! A repository is seen first and approved later; nothing runs for one that is not approved. A listing
//! is paged by a boundary, the activity and id of a row, so that rows are neither skipped nor repeated.

use vstd::prelude::*;

use crate::db::search::{holds, matches_query, read_query, sought, Piece};
use crate::db::tasks::{get_task, runs, TaskRecord, TaskView};
use crate::order;
use crate::order::{arranges, key_le, Key};
use crate::platform::Platform;
use crate::text;
use crate::text::{
    lemma_text_le_antisymmetric, lemma_text_le_total, lemma_text_le_transitive, lowercase_of,
    opt_str_view, opt_view, text_le,
};

verus! {

/// What a submission needs to know of the repository it names.
#[derive(Debug)]
pub struct RepoForReview {
    pub id: i64,
    /// Absent for a repository that was seen but never provisioned.
    pub installation_id: Option<i64>,
    /// `pending`, `approved` or `disabled`.
    pub status: String,
}

/// Whether a repository is approved.
#[derive(Clone, Copy, Debug, PartialEq, Eq, Structural)]
pub enum RepoStatus {
    Pending,
    Approved,
    Disabled,
}

/// The name a status is stored under.
pub open spec fn repo_status_name(s: RepoStatus) -> Seq<char> {
    match s {
        RepoStatus::Pending => "pending"@,
        RepoStatus::Approved => "approved"@,
        RepoStatus::Disabled => "disabled"@,
    }
}

impl RepoStatus {
    /// The name the status is stored under.
    pub fn as_str(&self) -> (r: &'static str)
        ensures
            r@ == repo_status_name(*self),
    {
        match self {
            RepoStatus::Pending => "pending",
            RepoStatus::Approved => "approved",
            RepoStatus::Disabled => "disabled",
        }
    }

    /// The status stored under a name, if there is one.
    pub fn from_name(name: &str) -> (r: Option<RepoStatus>)
        ensures
            match r {
                Some(s) => name@ == repo_status_name(s),
                None => forall|s: RepoStatus| name@ != #[trigger] repo_status_name(s),
            },
    {
        if text::same(name, "pending") {
            Some(RepoStatus::Pending)
        } else if text::same(name, "approved") {
            Some(RepoStatus::Approved)
        } else if text::same(name, "disabled") {
            Some(RepoStatus::Disabled)
        } else {
            None
        }
    }
}

/// A repository as it is stored.
#[derive(Debug)]
pub struct RepositoryRecord {
    pub id: i64,
    pub platform: Platform,
    pub platform_repo_id: i64,
    pub owner: String,
    pub name: String,
    pub default_branch: String,
    pub installation_id: Option<i64>,
    pub status: RepoStatus,
    pub approved_at: Option<i64>,
    pub approved_by: Option<String>,
    /// When a run was last created for it; zero where none ever was.
    pub last_task_at: i64,
}

/// The mathematical value of a [`RepositoryRecord`].
#[verifier::ext_equal]
pub struct RepositoryView {
    pub id: i64,
    pub platform: Platform,
    pub platform_repo_id: i64,
    pub owner: Seq<char>,
    pub name: Seq<char>,
    pub default_branch: Seq<char>,
    pub installation_id: Option<i64>,
    pub status: RepoStatus,
    pub approved_at: Option<i64>,
    pub approved_by: Option<Seq<char>>,
    pub last_task_at: i64,
}

impl View for RepositoryRecord {
    type V = RepositoryView;

    open spec fn view(&self) -> RepositoryView {
        RepositoryView {
            id: self.id,
            platform: self.platform,
            platform_repo_id: self.platform_repo_id,
            owner: self.owner@,
            name: self.name@,
            default_branch: self.default_branch@,
            installation_id: self.installation_id,
            status: self.status,
            approved_at: self.approved_at,
            approved_by: opt_view(self.approved_by),
            last_task_at: self.last_task_at,
        }
    }
}

/// The values of a table of repositories.
pub open spec fn repos(rows: Seq<RepositoryRecord>) -> Seq<RepositoryView> {
    Seq::new(rows.len(), |i: int| rows[i]@)
}

/// Whether `i` is the place of a repository of a platform; of several, the lowest.
pub open spec fn is_place_of(
    table: Seq<RepositoryView>,
    platform: Platform,
    platform_repo_id: i64,
    i: int,
) -> bool {
    &&& 0 <= i < table.len()
    &&& table[i].platform == platform && table[i].platform_repo_id == platform_repo_id
    &&& forall|j: int|
        0 <= j < i ==> !((#[trigger] table[j]).platform == platform && table[j].platform_repo_id
            == platform_repo_id)
}

/// Whether a table has no repository of that platform and number.
pub open spec fn is_unknown(
    table: Seq<RepositoryView>,
    platform: Platform,
    platform_repo_id: i64,
) -> bool {
    forall|j: int|
        0 <= j < table.len() ==> !((#[trigger] table[j]).platform == platform
            && table[j].platform_repo_id == platform_repo_id)
}

fn place_of(table: &Vec<RepositoryRecord>, platform: Platform, platform_repo_id: i64) -> (r: Option<
    usize,
>)
    ensures
        match r {
            Some(i) => is_place_of(repos(table@), platform, platform_repo_id, i as int),
            None => is_unknown(repos(table@), platform, platform_repo_id),
        },
{
    let ghost all = repos(table@);
    let mut i: usize = 0;
    while i < table.len()
        invariant
            i <= table@.len(),
            all == repos(table@),
            forall|j: int|
                0 <= j < i ==> !((#[trigger] all[j]).platform == platform
                    && all[j].platform_repo_id == platform_repo_id),
        decreases table@.len() - i,
    {
        assert(all[i as int] == table@[i as int]@);
        if table[i].platform == platform && table[i].platform_repo_id == platform_repo_id {
            return Some(i);
        }
        i = i + 1;
    }
    None
}

/// A repository that is seen for the first time: pending.
pub open spec fn first_seen(
    id: i64,
    platform: Platform,
    platform_repo_id: i64,
    owner: Seq<char>,
    name: Seq<char>,
    default_branch: Seq<char>,
    installation_id: Option<i64>,
) -> RepositoryView {
    RepositoryView {
        id,
        platform,
        platform_repo_id,
        owner,
        name,
        default_branch,
        installation_id,
        status: RepoStatus::Pending,
        approved_at: None,
        approved_by: None,
        last_task_at: 0,
    }
}

fn new_repository(
    id: i64,
    platform: Platform,
    platform_repo_id: i64,
    owner: &str,
    name: &str,
    default_branch: &str,
    installation_id: Option<i64>,
) -> (r: RepositoryRecord)
    ensures
        r@ == first_seen(
            id,
            platform,
            platform_repo_id,
            owner@,
            name@,
            default_branch@,
            installation_id,
        ),
{
    RepositoryRecord {
        id,
        platform,
        platform_repo_id,
        owner: owner.to_owned(),
        name: name.to_owned(),
        default_branch: default_branch.to_owned(),
        installation_id,
        status: RepoStatus::Pending,
        approved_at: None,
        approved_by: None,
        last_task_at: 0,
    }
}

/// A known installation, or the one on record.
pub open spec fn known_or(new: Option<i64>, on_record: Option<i64>) -> Option<i64> {
    if new is Some {
        new
    } else {
        on_record
    }
}

/// A repository seen again: its names are brought up to date; its approval is not touched.
pub open spec fn seen_again(
    r: RepositoryView,
    owner: Seq<char>,
    name: Seq<char>,
    default_branch: Seq<char>,
    installation_id: Option<i64>,
) -> RepositoryView {
    RepositoryView {
        owner,
        name,
        default_branch,
        installation_id: known_or(installation_id, r.installation_id),
        ..r
    }
}

/// Records a repository that was seen, new under `fresh_id`; its id is returned.
pub fn upsert_repository(
    table: &mut Vec<RepositoryRecord>,
    platform: Platform,
    platform_repo_id: i64,
    owner: &str,
    name: &str,
    default_branch: &str,
    installation_id: Option<i64>,
    fresh_id: i64,
) -> (r: i64)
    ensures
        ({
            let before = repos(old(table)@);
            let after = repos(final(table)@);
            if is_unknown(before, platform, platform_repo_id) {
                &&& r == fresh_id
                &&& after == before.push(
                    first_seen(
                        fresh_id,
                        platform,
                        platform_repo_id,
                        owner@,
                        name@,
                        default_branch@,
                        installation_id,
                    ),
                )
            } else {
                exists|i: int| #[trigger]
                    is_place_of(before, platform, platform_repo_id, i) && r == before[i].id && after
                        == before.update(
                        i,
                        seen_again(before[i], owner@, name@, default_branch@, installation_id),
                    )
            }
        }),
{
    let ghost before = repos(table@);
    match place_of(table, platform, platform_repo_id) {
        None => {
            let row: RepositoryRecord = new_repository(
                fresh_id,
                platform,
                platform_repo_id,
                owner,
                name,
                default_branch,
                installation_id,
            );
            let ghost row_view = row@;
            table.push(row);
            assert(repos(table@) =~= before.push(row_view));
            fresh_id
        },
        Some(i) => {
            assert(before[i as int] == table@[i as int]@);
            let known: Option<i64> = match installation_id {
                Some(id) => Some(id),
                None => table[i].installation_id,
            };
            table[i].owner = owner.to_owned();
            table[i].name = name.to_owned();
            table[i].default_branch = default_branch.to_owned();
            table[i].installation_id = known;
            assert(repos(table@) =~= before.update(
                i as int,
                seen_again(before[i as int], owner@, name@, default_branch@, installation_id),
            ));
            assert(!is_unknown(before, platform, platform_repo_id)) by {
                assert(before[i as int].platform == platform);
            }
            table[i].id
        },
    }
}

/// A repository that was disabled, opened for approval again. Its default branch stays.
pub open spec fn reopened(
    r: RepositoryView,
    owner: Seq<char>,
    name: Seq<char>,
    installation_id: Option<i64>,
) -> RepositoryView {
    RepositoryView {
        status: RepoStatus::Pending,
        owner,
        name,
        installation_id: known_or(installation_id, r.installation_id),
        ..r
    }
}

/// Registers a repository for approval: a new one is pending, a disabled one is opened again, and any
/// other is left alone. Returns whether anything changed.
pub fn register_pending_repository(
    table: &mut Vec<RepositoryRecord>,
    platform: Platform,
    platform_repo_id: i64,
    owner: &str,
    name: &str,
    default_branch: &str,
    installation_id: Option<i64>,
    fresh_id: i64,
) -> (r: bool)
    ensures
        ({
            let before = repos(old(table)@);
            let after = repos(final(table)@);
            if is_unknown(before, platform, platform_repo_id) {
                &&& r
                &&& after == before.push(
                    first_seen(
                        fresh_id,
                        platform,
                        platform_repo_id,
                        owner@,
                        name@,
                        default_branch@,
                        installation_id,
                    ),
                )
            } else {
                exists|i: int| #[trigger]
                    is_place_of(before, platform, platform_repo_id, i) && r == (before[i].status
                        == RepoStatus::Disabled) && after == (if r {
                        before.update(i, reopened(before[i], owner@, name@, installation_id))
                    } else {
                        before
                    })
            }
        }),
{
    let ghost before = repos(table@);
    match place_of(table, platform, platform_repo_id) {
        None => {
            let row: RepositoryRecord = new_repository(
                fresh_id,
                platform,
                platform_repo_id,
                owner,
                name,
                default_branch,
                installation_id,
            );
            let ghost row_view = row@;
            table.push(row);
            assert(repos(table@) =~= before.push(row_view));
            true
        },
        Some(i) => {
            assert(before[i as int] == table@[i as int]@);
            assert(!is_unknown(before, platform, platform_repo_id)) by {
                assert(before[i as int].platform == platform);
            }
            if table[i].status != RepoStatus::Disabled {
                return false;
            }
            let known: Option<i64> = match installation_id {
                Some(id) => Some(id),
                None => table[i].installation_id,
            };
            table[i].status = RepoStatus::Pending;
            table[i].owner = owner.to_owned();
            table[i].name = name.to_owned();
            table[i].installation_id = known;
            assert(repos(table@) =~= before.update(
                i as int,
                reopened(before[i as int], owner@, name@, installation_id),
            ));
            true
        },
    }
}

/// No webhook approves a repository: one seen for the first time is pending, one seen again keeps its
/// status, and one that is opened again is pending.
pub proof fn law_sighting_never_approves(
    r: RepositoryView,
    owner: Seq<char>,
    name: Seq<char>,
    branch: Seq<char>,
    installation_id: Option<i64>,
)
    ensures
        first_seen(
            r.id,
            r.platform,
            r.platform_repo_id,
            owner,
            name,
            branch,
            installation_id,
        ).status == RepoStatus::Pending,
        seen_again(r, owner, name, branch, installation_id).status == r.status,
        reopened(r, owner, name, installation_id).status == RepoStatus::Pending,
{
}

/// Whether `i` is the place of the repository of an id; of several, the first.
pub open spec fn is_repository_at(repos: Seq<RepositoryRecord>, id: i64, i: int) -> bool {
    &&& 0 <= i < repos.len()
    &&& repos[i].id == id
    &&& forall|j: int| 0 <= j < i ==> (#[trigger] repos[j]).id != id
}

/// The place of a repository by its id; of several, the lowest.
pub fn find_by_id(table: &Vec<RepositoryRecord>, id: i64) -> (r: Option<usize>)
    ensures
        match r {
            Some(i) => i < table@.len() && table@[i as int].id == id && forall|j: int|
                0 <= j < i ==> (#[trigger] table@[j]).id != id,
            None => forall|j: int| 0 <= j < table@.len() ==> (#[trigger] table@[j]).id != id,
        },
{
    let mut i: usize = 0;
    while i < table.len()
        invariant
            i <= table@.len(),
            forall|j: int| 0 <= j < i ==> (#[trigger] table@[j]).id != id,
        decreases table@.len() - i,
    {
        if table[i].id == id {
            return Some(i);
        }
        i = i + 1;
    }
    None
}

/// Whether a repository of a forge goes by an owner and a name, whatever the case of their letters.
pub open spec fn goes_by(
    r: RepositoryView,
    platform: Platform,
    owner: Seq<char>,
    name: Seq<char>,
) -> bool {
    r.platform == platform && lowercase_of(r.owner) == lowercase_of(owner) && lowercase_of(r.name)
        == lowercase_of(name)
}

/// Whether an answer is what the review of a repository needs to know of it.
pub open spec fn is_for_review(a: RepoForReview, r: RepositoryView) -> bool {
    a.id == r.id && a.installation_id == r.installation_id && a.status@ == repo_status_name(
        r.status,
    )
}

/// Finds a repository by its forge, owner and name, whatever the case of their letters: `None` where
/// none was ever connected. Which of several is found is open.
pub fn find_repository(
    table: &Vec<RepositoryRecord>,
    platform: Platform,
    owner: &str,
    name: &str,
) -> (r: Option<RepoForReview>)
    ensures
        match r {
            Some(found) => exists|i: int|
                0 <= i < table@.len() && goes_by(
                    #[trigger] table@[i]@,
                    platform,
                    owner@,
                    name@,
                ) && is_for_review(found, table@[i]@),
            None => forall|i: int|
                0 <= i < table@.len() ==> !goes_by(
                    #[trigger] table@[i]@,
                    platform,
                    owner@,
                    name@,
                ),
        },
{
    let wanted_owner: String = text::lowercase(owner);
    let wanted_name: String = text::lowercase(name);
    let mut i: usize = 0;
    while i < table.len()
        invariant
            i <= table@.len(),
            wanted_owner@ == lowercase_of(owner@),
            wanted_name@ == lowercase_of(name@),
            forall|j: int|
                0 <= j < i ==> !goes_by(#[trigger] table@[j]@, platform, owner@, name@),
        decreases table@.len() - i,
    {
        let r = &table[i];
        if r.platform == platform && text::same(
            text::lowercase(r.owner.as_str()).as_str(),
            wanted_owner.as_str(),
        ) && text::same(text::lowercase(r.name.as_str()).as_str(), wanted_name.as_str()) {
            let found = RepoForReview {
                id: r.id,
                installation_id: r.installation_id,
                status: r.status.as_str().to_owned(),
            };
            assert(goes_by(table@[i as int]@, platform, owner@, name@));
            return Some(found);
        }
        assert(!goes_by(table@[i as int]@, platform, owner@, name@));
        i = i + 1;
    }
    None
}

/// The status of a repository that may not be there.
pub open spec fn status_at(repo: Option<&RepositoryRecord>) -> Option<RepoStatus> {
    match repo {
        Some(r) => Some(r.status),
        None => None,
    }
}

/// The status of a repository, where it is known.
pub fn repository_status(repo: Option<&RepositoryRecord>) -> (r: Option<RepoStatus>)
    ensures
        r == status_at(repo),
{
    match repo {
        Some(repo) => Some(repo.status),
        None => None,
    }
}

/// Whether work may be done for a repository: it is known and approved.
pub fn repository_approved(repo: Option<&RepositoryRecord>) -> (r: bool)
    ensures
        r == (status_at(repo) == Some(RepoStatus::Approved)),
{
    match repository_status(repo) {
        Some(RepoStatus::Approved) => true,
        _ => false,
    }
}

/// Records the default branch of a repository.
pub fn update_repository_default_branch(repo: &mut RepositoryRecord, default_branch: &str)
    ensures
        final(repo)@ == (RepositoryView { default_branch: default_branch@, ..old(repo)@ }),
{
    repo.default_branch = default_branch.to_owned();
}

/// The installation of a repository, where it is known and recorded.
pub fn repository_installation_id(repo: Option<&RepositoryRecord>) -> (r: Option<i64>)
    ensures
        r == (match repo {
            Some(repo) => repo.installation_id,
            None => None,
        }),
{
    match repo {
        Some(repo) => repo.installation_id,
        None => None,
    }
}

/// A repository whose status a webhook sets. Who approved it, and when, is forgotten unless it is
/// approved.
pub open spec fn with_status(r: RepositoryView, status: RepoStatus) -> RepositoryView {
    RepositoryView {
        status,
        approved_at: if status == RepoStatus::Approved {
            r.approved_at
        } else {
            None
        },
        approved_by: if status == RepoStatus::Approved {
            r.approved_by
        } else {
            None
        },
        ..r
    }
}

/// Sets the status of a repository by its number on its platform; its id is returned.
pub fn set_repository_status_by_platform_id(
    table: &mut Vec<RepositoryRecord>,
    platform: Platform,
    platform_repo_id: i64,
    status: RepoStatus,
) -> (r: Option<i64>)
    ensures
        ({
            let before = repos(old(table)@);
            if is_unknown(before, platform, platform_repo_id) {
                r is None && repos(final(table)@) == before
            } else {
                exists|i: int| #[trigger]
                    is_place_of(before, platform, platform_repo_id, i) && r == Some(before[i].id)
                        && repos(final(table)@) == before.update(i, with_status(before[i], status))
            }
        }),
{
    let ghost before = repos(table@);
    match place_of(table, platform, platform_repo_id) {
        None => None,
        Some(i) => {
            assert(before[i as int] == table@[i as int]@);
            assert(!is_unknown(before, platform, platform_repo_id)) by {
                assert(before[i as int].platform == platform);
            }
            table[i].status = status;
            if status != RepoStatus::Approved {
                table[i].approved_at = None;
                table[i].approved_by = None;
            }
            assert(repos(table@) =~= before.update(
                i as int,
                with_status(before[i as int], status),
            ));
            Some(table[i].id)
        },
    }
}

/// A repository whose status an administrator sets: an approval records who gave it and when, and
/// anything else forgets it.
pub open spec fn decided(
    r: RepositoryView,
    status: RepoStatus,
    approved_by: Option<Seq<char>>,
    now: i64,
) -> RepositoryView {
    RepositoryView {
        status,
        approved_at: if status == RepoStatus::Approved {
            Some(now)
        } else {
            None
        },
        approved_by: if status == RepoStatus::Approved {
            approved_by
        } else {
            None
        },
        ..r
    }
}

/// Sets the status of a repository as an administrator decides.
pub fn set_repository_status_by_id(
    repo: &mut RepositoryRecord,
    status: RepoStatus,
    approved_by: Option<&str>,
    now: i64,
)
    ensures
        final(repo)@ == decided(old(repo)@, status, opt_str_view(approved_by), now),
{
    repo.status = status;
    if status == RepoStatus::Approved {
        repo.approved_at = Some(now);
        repo.approved_by = match approved_by {
            Some(by) => Some(by.to_owned()),
            None => None,
        };
    } else {
        repo.approved_at = None;
        repo.approved_by = None;
    }
}

/// A repository that is not approved carries no trace of an approval.
pub proof fn law_only_approval_leaves_a_trace(
    r: RepositoryView,
    status: RepoStatus,
    by: Option<Seq<char>>,
    now: i64,
)
    requires
        status != RepoStatus::Approved,
    ensures
        decided(r, status, by, now).approved_at is None,
        decided(r, status, by, now).approved_by is None,
        with_status(r, status).approved_at is None,
        with_status(r, status).approved_by is None,
{
}

/// A repository as it is shown, with its activity.
#[derive(Debug)]
pub struct RepositoryRow {
    pub id: i64,
    pub platform_repo_id: i64,
    pub platform: Platform,
    pub owner: String,
    pub name: String,
    pub default_branch: String,
    pub status: RepoStatus,
    pub active: bool,
    pub approved_at: Option<i64>,
    pub approved_by: Option<String>,
    pub task_count: usize,
    pub last_task_at: Option<i64>,
}

/// Whether a row shows a repository with this activity.
pub open spec fn shows(
    row: RepositoryRow,
    r: RepositoryView,
    task_count: nat,
    last_task_at: Option<i64>,
) -> bool {
    &&& row.id == r.id
    &&& row.platform_repo_id == r.platform_repo_id
    &&& row.platform == r.platform
    &&& row.owner@ == r.owner
    &&& row.name@ == r.name
    &&& row.default_branch@ == r.default_branch
    &&& row.status == r.status
    &&& row.active == (r.status == RepoStatus::Approved)
    &&& row.approved_at == r.approved_at
    &&& opt_view(row.approved_by) == r.approved_by
    &&& row.task_count == task_count
    &&& row.last_task_at == last_task_at
}

/// The runs of a repository.
pub open spec fn runs_of(table: Seq<TaskView>, repository_id: i64) -> Seq<TaskView> {
    table.filter(|t: TaskView| t.repository_id == repository_id)
}

/// When the last of some runs was created.
pub open spec fn last_created(table: Seq<TaskView>) -> Option<i64>
    decreases table.len(),
{
    if table.len() == 0 {
        None
    } else {
        match last_created(table.drop_last()) {
            Some(at) => if table.last().created_at > at {
                Some(table.last().created_at)
            } else {
                Some(at)
            },
            None => Some(table.last().created_at),
        }
    }
}

/// A repository with its activity, from its runs.
pub fn repository_row(repo: &RepositoryRecord, tasks: &Vec<TaskRecord>) -> (r: RepositoryRow)
    ensures
        shows(
            r,
            repo@,
            runs_of(runs(tasks@), repo.id).len(),
            last_created(runs_of(runs(tasks@), repo.id)),
        ),
{
    let ghost table = runs(tasks@);
    let ghost p = |t: TaskView| t.repository_id == repo.id;
    let mut task_count: usize = 0;
    let mut last_task_at: Option<i64> = None;
    let mut i: usize = 0;
    proof {
        reveal(Seq::filter);
        assert(table.take(0) =~= Seq::empty());
    }
    while i < tasks.len()
        invariant
            task_count <= i <= tasks@.len(),
            table == runs(tasks@),
            p == (|t: TaskView| t.repository_id == repo.id),
            task_count == table.take(i as int).filter(p).len(),
            last_task_at == last_created(table.take(i as int).filter(p)),
        decreases tasks@.len() - i,
    {
        let ghost held = table.take(i as int).filter(p);
        proof {
            reveal(Seq::filter);
            assert(table.take(i + 1).drop_last() =~= table.take(i as int));
            assert(table.take(i + 1).last() == tasks@[i as int]@);
            assert(held.push(tasks@[i as int]@).drop_last() =~= held);
        }
        let t = &tasks[i];
        if t.repository_id == repo.id {
            task_count = task_count + 1;
            last_task_at = match last_task_at {
                Some(at) => if t.created_at > at {
                    Some(t.created_at)
                } else {
                    Some(at)
                },
                None => Some(t.created_at),
            };
        }
        i = i + 1;
    }
    assert(table.take(i as int) =~= table);
    RepositoryRow {
        id: repo.id,
        platform_repo_id: repo.platform_repo_id,
        platform: repo.platform,
        owner: repo.owner.clone(),
        name: repo.name.clone(),
        default_branch: repo.default_branch.clone(),
        status: repo.status,
        active: repo.status == RepoStatus::Approved,
        approved_at: repo.approved_at,
        approved_by: text::copy_opt(&repo.approved_by),
        task_count,
        last_task_at,
    }
}

/// Whether a row stands no later than another: by activity, the latest first and those with none last,
/// then by owner and name in code-point order.
pub open spec fn row_le(a: RepositoryRow, b: RepositoryRow) -> bool {
    match (a.last_task_at, b.last_task_at) {
        (Some(x), Some(y)) if x != y => x > y,
        (Some(_), None) => true,
        (None, Some(_)) => false,
        _ => if a.owner@ == b.owner@ {
            text_le(a.name@, b.name@)
        } else {
            text_le(a.owner@, b.owner@)
        },
    }
}

fn row_not_after(a: &RepositoryRow, b: &RepositoryRow) -> (r: bool)
    ensures
        r == row_le(*a, *b),
{
    match (a.last_task_at, b.last_task_at) {
        (Some(x), Some(y)) => {
            if x != y {
                return x > y;
            }
        },
        (Some(_), None) => return true,
        (None, Some(_)) => return false,
        (None, None) => {},
    }
    if text::same(a.owner.as_str(), b.owner.as_str()) {
        text::not_after(a.name.as_str(), b.name.as_str())
    } else {
        text::not_after(a.owner.as_str(), b.owner.as_str())
    }
}

proof fn lemma_row_total(a: RepositoryRow, b: RepositoryRow)
    ensures
        row_le(a, b) || row_le(b, a),
{
    lemma_text_le_total(a.owner@, b.owner@);
    lemma_text_le_total(a.name@, b.name@);
}

proof fn lemma_row_transitive(a: RepositoryRow, b: RepositoryRow, c: RepositoryRow)
    requires
        row_le(a, b),
        row_le(b, c),
    ensures
        row_le(a, c),
{
    if a.last_task_at == b.last_task_at && b.last_task_at == c.last_task_at {
        if a.owner@ == b.owner@ && b.owner@ == c.owner@ {
            lemma_text_le_transitive(a.name@, b.name@, c.name@);
        } else if a.owner@ != b.owner@ && b.owner@ != c.owner@ {
            lemma_text_le_transitive(a.owner@, b.owner@, c.owner@);
            if a.owner@ == c.owner@ {
                lemma_text_le_antisymmetric(a.owner@, b.owner@);
            }
        }
    }
}

/// Whether `rows` lists the repositories of a status, each once with its activity, in order.
/// `places` says where each row is from.
pub open spec fn is_listing(
    rows: Seq<RepositoryRow>,
    places: Seq<int>,
    table: Seq<RepositoryView>,
    tasks: Seq<TaskView>,
    status: Option<RepoStatus>,
) -> bool {
    &&& places.len() == rows.len()
    &&& places.no_duplicates()
    &&& forall|a: int|
        0 <= a < places.len() ==> {
            &&& 0 <= #[trigger] places[a] < table.len()
            &&& status is None || table[places[a]].status == status->0
            &&& shows(
                rows[a],
                table[places[a]],
                runs_of(tasks, table[places[a]].id).len(),
                last_created(runs_of(tasks, table[places[a]].id)),
            )
        }
    &&& forall|i: int|
        0 <= i < table.len() && (status is None || (#[trigger] table[i]).status == status->0)
            ==> places.contains(i)
    &&& forall|a: int, b: int|
        0 <= a < b < rows.len() ==> row_le(#[trigger] rows[a], #[trigger] rows[b])
}

/// Lists the repositories, optionally of one status, the latest active first.
pub fn list_repositories(
    table: &Vec<RepositoryRecord>,
    tasks: &Vec<TaskRecord>,
    status: Option<RepoStatus>,
) -> (r: Vec<RepositoryRow>)
    ensures
        exists|places: Seq<int>| #[trigger]
            is_listing(r@, places, repos(table@), runs(tasks@), status),
{
    let ghost all = repos(table@);
    let ghost ts = runs(tasks@);
    let mut rows: Vec<RepositoryRow> = Vec::new();
    let ghost mut places: Seq<int> = Seq::empty();
    let mut i: usize = 0;
    while i < table.len()
        invariant
            i <= table@.len(),
            all == repos(table@),
            ts == runs(tasks@),
            places.len() == rows@.len(),
            places.no_duplicates(),
            forall|a: int|
                0 <= a < places.len() ==> {
                    &&& 0 <= #[trigger] places[a] < i
                    &&& status is None || all[places[a]].status == status->0
                    &&& shows(
                        rows@[a],
                        all[places[a]],
                        runs_of(ts, all[places[a]].id).len(),
                        last_created(runs_of(ts, all[places[a]].id)),
                    )
                },
            forall|k: int|
                0 <= k < i && (status is None || (#[trigger] all[k]).status == status->0)
                    ==> places.contains(k),
            forall|a: int, b: int|
                0 <= a < b < rows@.len() ==> row_le(#[trigger] rows@[a], #[trigger] rows@[b]),
        decreases table@.len() - i,
    {
        let listed: bool = match status {
            Some(s) => table[i].status == s,
            None => true,
        };
        assert(all[i as int] == table@[i as int]@);
        if listed {
            let row: RepositoryRow = repository_row(&table[i], tasks);
            let ghost before = rows@;
            let ghost old_places = places;
            let mut at: usize = rows.len();
            while at > 0 && !row_not_after(&rows[at - 1], &row)
                invariant
                    at <= rows@.len(),
                    rows@ == before,
                    forall|a: int| at <= a < before.len() ==> row_le(row, #[trigger] before[a]),
                decreases at,
            {
                proof {
                    lemma_row_total(before[at - 1], row);
                }
                at = at - 1;
            }
            let ghost new_row = row;
            rows.insert(at, row);
            proof {
                places = old_places.insert(at as int, i as int);
                assert(rows@ == before.insert(at as int, new_row));
                assert forall|a: int, b: int| 0 <= a < b < rows@.len() implies row_le(
                    #[trigger] rows@[a],
                    #[trigger] rows@[b],
                ) by {
                    let x = if a < at { a } else { a - 1 };
                    let y = if b < at { b } else { b - 1 };
                    if a != at && b != at {
                        assert(rows@[a] == before[x] && rows@[b] == before[y]);
                    } else if b == at {
                        assert(rows@[a] == before[a]);
                        if a < at - 1 {
                            assert(row_le(before[a], before[at - 1]));
                            lemma_row_transitive(before[a], before[at - 1], new_row);
                        }
                    } else {
                        assert(rows@[b] == before[y]);
                    }
                }
                assert forall|a: int| 0 <= a < places.len() implies {
                    &&& 0 <= #[trigger] places[a] < i + 1
                    &&& status is None || all[places[a]].status == status->0
                    &&& shows(
                        rows@[a],
                        all[places[a]],
                        runs_of(ts, all[places[a]].id).len(),
                        last_created(runs_of(ts, all[places[a]].id)),
                    )
                } by {
                    if a < at {
                        assert(places[a] == old_places[a] && rows@[a] == before[a]);
                    } else if a > at {
                        assert(places[a] == old_places[a - 1] && rows@[a] == before[a - 1]);
                    }
                }
                assert forall|a: int, b: int| 0 <= a < places.len() && 0 <= b < places.len() && a
                    != b implies places[a] != places[b] by {
                    let x = if a < at { a } else { a - 1 };
                    let y = if b < at { b } else { b - 1 };
                    if a != at {
                        assert(places[a] == old_places[x]);
                    }
                    if b != at {
                        assert(places[b] == old_places[y]);
                    }
                }
                assert forall|k: int| 0 <= k < i + 1 && (status is None || (
                #[trigger] all[k]).status == status->0) implies places.contains(k) by {
                    if k == i {
                        assert(places[at as int] == k);
                    } else {
                        let a = old_places.index_of(k);
                        assert(old_places.contains(k));
                        assert(old_places[a] == k);
                        let b = if a < at { a } else { a + 1 };
                        assert(places[b] == k);
                    }
                }
            }
        }
        i = i + 1;
    }
    assert(is_listing(rows@, places, all, ts, status));
    rows
}

/// The boundary of a page: the activity and id of a row, and which way to go on from there.
#[derive(Clone, Copy, Debug, PartialEq, Eq, Structural)]
pub enum RepositoryCursor {
    /// On from the bottom of a page.
    After(i64, i64),
    /// Back from the top of a page.
    Before(i64, i64),
}

/// Whether a row is after another in the order of activity and id.
pub open spec fn more_recent(a: (i64, i64), b: (i64, i64)) -> bool {
    a.0 > b.0 || (a.0 == b.0 && a.1 > b.1)
}

/// What a row is paged by.
pub open spec fn boundary(r: RepositoryView) -> (i64, i64) {
    (r.last_task_at, r.id)
}

/// Whether a row lies in the direction of a cursor.
pub open spec fn lies_ahead(r: RepositoryView, cursor: Option<RepositoryCursor>) -> bool {
    match cursor {
        None => true,
        Some(RepositoryCursor::After(at, id)) => more_recent((at, id), boundary(r)),
        Some(RepositoryCursor::Before(at, id)) => more_recent(boundary(r), (at, id)),
    }
}

/// The rows ahead of a cursor, among those that match the search, whose hits are given.
pub open spec fn ahead(
    table: Seq<RepositoryView>,
    hits: Seq<bool>,
    cursor: Option<RepositoryCursor>,
) -> Seq<bool> {
    Seq::new(table.len(), |i: int| hits[i] && lies_ahead(table[i], cursor))
}

/// The order in which rows ahead of a cursor are come by: away from it.
pub open spec fn scan_keys(table: Seq<RepositoryView>, backward: bool) -> Seq<Key> {
    Seq::new(
        table.len(),
        |i: int|
            if backward {
                Key { major: table[i].last_task_at as i128, minor: table[i].id as i128, id: 0 }
            } else {
                Key {
                    major: (-table[i].last_task_at) as i128,
                    minor: (-table[i].id) as i128,
                    id: 0,
                }
            },
    )
}

/// Whether a cursor goes back.
pub open spec fn goes_back(cursor: Option<RepositoryCursor>) -> bool {
    match cursor {
        Some(RepositoryCursor::Before(_, _)) => true,
        _ => false,
    }
}

/// How many rows match the search.
pub open spec fn count_hits(hits: Seq<bool>) -> nat
    decreases hits.len(),
{
    if hits.len() == 0 {
        0
    } else {
        count_hits(hits.drop_last()) + if hits.last() {
            1nat
        } else {
            0nat
        }
    }
}

/// A page of repositories: the places of its rows in the order shown, how many rows there are on all
/// pages, and the boundaries to go on from, absent at the ends.
#[derive(Debug)]
pub struct RepositoryPage {
    pub rows: Vec<usize>,
    pub total: usize,
    pub next: Option<(i64, i64)>,
    pub prev: Option<(i64, i64)>,
}

/// How many of the rows come by are on the page.
pub open spec fn page_len(scanned: nat, page_size: usize) -> int {
    if scanned <= page_size {
        scanned as int
    } else {
        page_size as int
    }
}

/// Whether a page holds the first rows of a scan, and its boundaries are those of its ends. A page that
/// was reached from a cursor always has a page on the side it was reached from.
pub open spec fn is_page(
    p: RepositoryPage,
    scan: Seq<usize>,
    table: Seq<RepositoryView>,
    hits: Seq<bool>,
    cursor: Option<RepositoryCursor>,
    page_size: usize,
) -> bool {
    let n = page_len(scan.len(), page_size);
    let more = scan.len() > page_size;
    let has_next = goes_back(cursor) || more;
    let has_prev = if goes_back(cursor) {
        more
    } else {
        cursor is Some
    };
    &&& p.rows@ == (if goes_back(cursor) {
        scan.take(n).reverse()
    } else {
        scan.take(n)
    })
    &&& p.total == count_hits(hits)
    &&& p.next == (if has_next && n > 0 {
        Some(boundary(table[p.rows@.last() as int]))
    } else {
        None
    })
    &&& p.prev == (if has_prev && n > 0 {
        Some(boundary(table[p.rows@[0] as int]))
    } else {
        None
    })
}

fn total_hits(hits: &Vec<bool>) -> (r: usize)
    ensures
        r == count_hits(hits@),
{
    let mut n: usize = 0;
    let mut i: usize = 0;
    assert(hits@.take(0) =~= Seq::empty());
    while i < hits.len()
        invariant
            n <= i <= hits@.len(),
            n == count_hits(hits@.take(i as int)),
        decreases hits@.len() - i,
    {
        assert(hits@.take(i + 1).drop_last() =~= hits@.take(i as int));
        if hits[i] {
            n = n + 1;
        }
        i = i + 1;
    }
    assert(hits@.take(i as int) =~= hits@);
    n
}

fn reversed(v: &Vec<usize>) -> (r: Vec<usize>)
    ensures
        r@ == v@.reverse(),
{
    let mut out: Vec<usize> = Vec::new();
    let mut i: usize = v.len();
    while i > 0
        invariant
            i <= v@.len(),
            out@.len() == v@.len() - i,
            forall|j: int| 0 <= j < out@.len() ==> #[trigger] out@[j] == v@[v@.len() - 1 - j],
        decreases i,
    {
        i = i - 1;
        out.push(v[i]);
    }
    assert(out@ =~= v@.reverse());
    out
}

/// The repositories that a query finds by owner and name; without a query, all.
pub open spec fn repo_hits(table: Seq<RepositoryView>, query: Option<Seq<char>>) -> Seq<bool> {
    Seq::new(
        table.len(),
        |i: int|
            query matches Some(q) ==> matches_query(q, table[i].owner + "/"@ + table[i].name),
    )
}

/// Says of every repository whether a query finds it.
pub fn search_repositories(table: &Vec<RepositoryRecord>, query: Option<&str>) -> (r: Vec<bool>)
    ensures
        r@ == repo_hits(repos(table@), opt_str_view(query)),
{
    let ghost all = repos(table@);
    let looked_for: Option<Vec<Piece>> = match query {
        Some(q) => Some(read_query(q)),
        None => None,
    };
    let mut hits: Vec<bool> = Vec::new();
    let mut i: usize = 0;
    while i < table.len()
        invariant
            i <= table@.len(),
            all == repos(table@),
            looked_for is Some <==> query is Some,
            looked_for matches Some(pieces) ==> pieces@ == sought(query->0@),
            hits@ =~= repo_hits(all, opt_str_view(query)).take(i as int),
        decreases table@.len() - i,
    {
        assert(all[i as int] == table@[i as int]@);
        let hit: bool = match &looked_for {
            Some(pieces) => {
                let mut full_name: String = table[i].owner.as_str().to_owned();
                full_name.append("/");
                full_name.append(table[i].name.as_str());
                holds(pieces, full_name.as_str())
            },
            None => true,
        };
        hits.push(hit);
        i = i + 1;
    }
    assert(hits@ =~= repo_hits(all, opt_str_view(query)));
    hits
}

/// A page of the repositories that a query finds, the latest active first, from a cursor on.
pub fn list_repositories_page(
    table: &Vec<RepositoryRecord>,
    query: Option<&str>,
    cursor: Option<RepositoryCursor>,
    page_size: usize,
) -> (r: RepositoryPage)
    ensures
        ({
            let all = repos(table@);
            let hits = repo_hits(all, opt_str_view(query));
            exists|scan: Seq<usize>| #[trigger]
                arranges(scan, ahead(all, hits, cursor), scan_keys(all, goes_back(cursor)))
                    && is_page(r, scan, all, hits, cursor, page_size)
        }),
{
    let hits: Vec<bool> = search_repositories(table, query);
    page_of_hits(table, &hits, cursor, page_size)
}

fn page_of_hits(
    table: &Vec<RepositoryRecord>,
    hits: &Vec<bool>,
    cursor: Option<RepositoryCursor>,
    page_size: usize,
) -> (r: RepositoryPage)
    requires
        hits@.len() == table@.len(),
    ensures
        exists|scan: Seq<usize>| #[trigger]
            arranges(
                scan,
                ahead(repos(table@), hits@, cursor),
                scan_keys(repos(table@), goes_back(cursor)),
            ) && is_page(r, scan, repos(table@), hits@, cursor, page_size),
{
    let ghost all = repos(table@);
    let backward: bool = match cursor {
        Some(RepositoryCursor::Before(_, _)) => true,
        _ => false,
    };
    let mut selected: Vec<bool> = Vec::new();
    let mut keys: Vec<Key> = Vec::new();
    let mut i: usize = 0;
    while i < table.len()
        invariant
            i <= table@.len(),
            hits@.len() == table@.len(),
            all == repos(table@),
            backward == goes_back(cursor),
            selected@ =~= ahead(all, hits@, cursor).take(i as int),
            keys@ =~= scan_keys(all, backward).take(i as int),
        decreases table@.len() - i,
    {
        let at: i64 = table[i].last_task_at;
        let id: i64 = table[i].id;
        assert(all[i as int] == table@[i as int]@);
        let in_direction: bool = match cursor {
            None => true,
            Some(RepositoryCursor::After(c_at, c_id)) => c_at > at || (c_at == at && c_id > id),
            Some(RepositoryCursor::Before(c_at, c_id)) => at > c_at || (at == c_at && id > c_id),
        };
        assert(in_direction == lies_ahead(all[i as int], cursor));
        selected.push(hits[i] && in_direction);
        keys.push(
            if backward {
                Key { major: at as i128, minor: id as i128, id: 0 }
            } else {
                Key { major: -(at as i128), minor: -(id as i128), id: 0 }
            },
        );
        i = i + 1;
    }
    assert(selected@ =~= ahead(all, hits@, cursor));
    assert(keys@ =~= scan_keys(all, backward));
    let scanned: Vec<usize> = order::arrange(&selected, &keys);
    let ghost scan = scanned@;
    let more: bool = scanned.len() > page_size;
    let mut rows: Vec<usize> = scanned;
    if more {
        rows.truncate(page_size);
    }
    let ghost n = page_len(scan.len(), page_size);
    assert(rows@ =~= scan.take(n));
    if backward {
        rows = reversed(&rows);
    }
    let (has_next, has_prev): (bool, bool) = match cursor {
        None => (more, false),
        Some(RepositoryCursor::After(_, _)) => (more, true),
        Some(RepositoryCursor::Before(_, _)) => (true, more),
    };
    assert(rows@.len() == n);
    assert forall|a: int| 0 <= a < rows@.len() implies (#[trigger] rows@[a]) < table@.len() by {
        if backward {
            assert(rows@[a] == scan[n - 1 - a]);
        } else {
            assert(rows@[a] == scan[a]);
        }
    }
    let mut next: Option<(i64, i64)> = None;
    let mut prev: Option<(i64, i64)> = None;
    if rows.len() > 0 {
        if has_next {
            let last: usize = rows[rows.len() - 1];
            next = Some((table[last].last_task_at, table[last].id));
        }
        if has_prev {
            let first: usize = rows[0];
            prev = Some((table[first].last_task_at, table[first].id));
        }
    }
    let r = RepositoryPage { rows, total: total_hits(hits), next, prev };
    assert(is_page(r, scan, all, hits@, cursor, page_size));
    r
}

/// The activity of a repository as it is shown: absent where no run was ever created for it.
pub fn shown_activity(last_task_at: i64) -> (r: Option<i64>)
    ensures
        r == (if last_task_at == 0 {
            None
        } else {
            Some(last_task_at)
        }),
{
    if last_task_at == 0 {
        None
    } else {
        Some(last_task_at)
    }
}

/// Paging forward neither skips nor repeats a row: what matches the search and lies ahead of a page's
/// cursor is either on the page or ahead of the boundary that the page gives to go on from, and not
/// both. Where the page gives none, everything is on the page.
pub proof fn law_forward_pages_tile(
    p: RepositoryPage,
    scan: Seq<usize>,
    table: Seq<RepositoryView>,
    hits: Seq<bool>,
    cursor: Option<RepositoryCursor>,
    page_size: usize,
    i: int,
)
    requires
        hits.len() == table.len(),
        !goes_back(cursor),
        page_size > 0,
        forall|a: int, b: int|
            0 <= a < b < table.len() ==> (#[trigger] table[a]).id != (#[trigger] table[b]).id,
        arranges(scan, ahead(table, hits, cursor), scan_keys(table, false)),
        is_page(p, scan, table, hits, cursor, page_size),
        0 <= i < table.len(),
        ahead(table, hits, cursor)[i],
    ensures
        match p.next {
            Some(c) => p.rows@.contains(i as usize) <==> !ahead(
                table,
                hits,
                Some(RepositoryCursor::After(c.0, c.1)),
            )[i],
            None => p.rows@.contains(i as usize),
        },
{
    let selected = ahead(table, hits, cursor);
    let keys = scan_keys(table, false);
    let a = choose|a: int| 0 <= a < scan.len() && #[trigger] scan[a] == i;
    assert(selected[i]);
    let n = page_len(scan.len(), page_size);
    if a < n {
        assert(p.rows@[a] == i as usize);
    }
    if p.next is Some {
        let last = scan[n - 1] as int;
        assert(p.rows@.last() == scan[n - 1]);
        if a < n - 1 {
            assert(key_le(keys[scan[a] as int], keys[scan[n - 1] as int]));
        } else if a > n - 1 {
            assert(key_le(keys[scan[n - 1] as int], keys[scan[a] as int]));
            assert(scan[n - 1] != scan[a]);
            if p.rows@.contains(i as usize) {
                let b = choose|b: int| 0 <= b < p.rows@.len() && p.rows@[b] == i as usize;
                assert(scan[b] == scan[a]);
            }
        }
        assert(keys[i].major == -table[i].last_task_at && keys[i].minor == -table[i].id);
        assert(keys[last].major == -table[last].last_task_at && keys[last].minor
            == -table[last].id);
    }
}

/// Paging back neither skips nor repeats a row, in the same way.
pub proof fn law_backward_pages_tile(
    p: RepositoryPage,
    scan: Seq<usize>,
    table: Seq<RepositoryView>,
    hits: Seq<bool>,
    cursor: Option<RepositoryCursor>,
    page_size: usize,
    i: int,
)
    requires
        hits.len() == table.len(),
        goes_back(cursor),
        page_size > 0,
        forall|a: int, b: int|
            0 <= a < b < table.len() ==> (#[trigger] table[a]).id != (#[trigger] table[b]).id,
        arranges(scan, ahead(table, hits, cursor), scan_keys(table, true)),
        is_page(p, scan, table, hits, cursor, page_size),
        0 <= i < table.len(),
        ahead(table, hits, cursor)[i],
    ensures
        match p.prev {
            Some(c) => p.rows@.contains(i as usize) <==> !ahead(
                table,
                hits,
                Some(RepositoryCursor::Before(c.0, c.1)),
            )[i],
            None => p.rows@.contains(i as usize),
        },
{
    let selected = ahead(table, hits, cursor);
    let keys = scan_keys(table, true);
    let a = choose|a: int| 0 <= a < scan.len() && #[trigger] scan[a] == i;
    assert(selected[i]);
    let n = page_len(scan.len(), page_size);
    if a < n {
        assert(p.rows@[n - 1 - a] == i as usize);
    }
    if p.prev is Some {
        let first = scan[n - 1] as int;
        assert(p.rows@[0] == scan[n - 1]);
        if a < n - 1 {
            assert(key_le(keys[scan[a] as int], keys[scan[n - 1] as int]));
        } else if a > n - 1 {
            assert(key_le(keys[scan[n - 1] as int], keys[scan[a] as int]));
            assert(scan[n - 1] != scan[a]);
            if p.rows@.contains(i as usize) {
                let b = choose|b: int| 0 <= b < p.rows@.len() && p.rows@[b] == i as usize;
                assert(scan[n - 1 - b] == scan[a]);
            }
        }
        assert(keys[i].major == table[i].last_task_at && keys[i].minor == table[i].id);
        assert(keys[first].major == table[first].last_task_at && keys[first].minor
            == table[first].id);
    }
}

/// A repository by its id, with its activity, where it is known.
pub fn get_repository_by_id(
    table: &Vec<RepositoryRecord>,
    tasks: &Vec<TaskRecord>,
    id: i64,
) -> (r: Option<RepositoryRow>)
    ensures
        match r {
            Some(row) => exists|i: int|
                0 <= i < table@.len() && (#[trigger] table@[i]).id == id && shows(
                    row,
                    table@[i]@,
                    runs_of(runs(tasks@), id).len(),
                    last_created(runs_of(runs(tasks@), id)),
                ),
            None => forall|j: int| 0 <= j < table@.len() ==> (#[trigger] table@[j]).id != id,
        },
{
    match find_by_id(table, id) {
        Some(i) => {
            let row: RepositoryRow = repository_row(&table[i], tasks);
            assert(table@[i as int].id == id);
            Some(row)
        },
        None => None,
    }
}

/// What the runner is told of a run: the run, and the repository it is for.
#[derive(Debug)]
pub struct TaskContextRow {
    pub id: u128,
    pub repository_id: i64,
    pub installation_id: i64,
    pub owner: String,
    pub name: String,
    pub default_branch: String,
    pub platform: Platform,
    pub target_type: String,
    pub target_id: i64,
    pub command_text: String,
    pub kind: String,
    pub preset: String,
    pub entry_point: String,
    pub base_sha: Option<String>,
    pub head_sha: Option<String>,
    pub trigger_comment_id: Option<i64>,
    pub model_override: Option<String>,
    pub check_runs_enabled: bool,
}

/// Whether a context is that of a run for a repository.
pub open spec fn is_context(c: TaskContextRow, t: TaskView, r: RepositoryView) -> bool {
    &&& c.id == t.id
    &&& c.repository_id == t.repository_id
    &&& c.installation_id == t.installation_id
    &&& c.owner@ == r.owner
    &&& c.name@ == r.name
    &&& c.default_branch@ == r.default_branch
    &&& c.platform == r.platform
    &&& c.target_type@ == t.target_type
    &&& c.target_id == t.target_id
    &&& c.command_text@ == t.command_text
    &&& c.kind@ == t.kind
    &&& c.preset@ == t.preset
    &&& c.entry_point@ == t.entry_point
    &&& opt_view(c.base_sha) == t.base_sha
    &&& opt_view(c.head_sha) == t.head_sha
    &&& c.trigger_comment_id == t.trigger_comment_id
    &&& opt_view(c.model_override) == t.model_override
    &&& c.check_runs_enabled == t.check_runs_enabled
}

/// What the runner is told of a run, where the run and its repository are known.
pub fn get_task_context(
    tasks: &Vec<TaskRecord>,
    table: &Vec<RepositoryRecord>,
    id: u128,
) -> (r: Option<TaskContextRow>)
    ensures
        match r {
            Some(c) => exists|i: int, j: int|
                0 <= i < tasks@.len() && 0 <= j < table@.len() && (#[trigger] tasks@[i]).id == id && (
                #[trigger] table@[j]).id == tasks@[i].repository_id && is_context(
                    c,
                    tasks@[i]@,
                    table@[j]@,
                ),
            None => (forall|i: int| 0 <= i < tasks@.len() ==> (#[trigger] tasks@[i]).id != id)
                || exists|i: int|
                0 <= i < tasks@.len() && (#[trigger] tasks@[i]).id == id && forall|j: int|
                    0 <= j < table@.len() ==> (#[trigger] table@[j]).id != tasks@[i].repository_id,
        },
{
    let i: usize = match get_task(tasks, id) {
        Some(i) => i,
        None => return None,
    };
    assert(tasks@[i as int].id == id);
    let j: usize = match find_by_id(table, tasks[i].repository_id) {
        Some(j) => j,
        None => return None,
    };
    let t = &tasks[i];
    let repo = &table[j];
    assert(table@[j as int].id == tasks@[i as int].repository_id);
    let c = TaskContextRow {
        id: t.id,
        repository_id: t.repository_id,
        installation_id: t.installation_id,
        owner: repo.owner.clone(),
        name: repo.name.clone(),
        default_branch: repo.default_branch.clone(),
        platform: repo.platform,
        target_type: t.target_type.clone(),
        target_id: t.target_id,
        command_text: t.command_text.clone(),
        kind: t.kind.clone(),
        preset: t.preset.clone(),
        entry_point: t.entry_point.clone(),
        base_sha: text::copy_opt(&t.base_sha),
        head_sha: text::copy_opt(&t.head_sha),
        trigger_comment_id: t.trigger_comment_id,
        model_override: text::copy_opt(&t.model_override),
        check_runs_enabled: t.check_runs_enabled,
    };
    assert(is_context(c, tasks@[i as int]@, table@[j as int]@));
    Some(c)
}

} // verus!
