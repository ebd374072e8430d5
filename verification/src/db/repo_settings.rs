//! Settings of one repository that override the configured ones.
//!
//! A setting that is absent is not overridden. A patch says of each setting whether to leave it, to
//! clear it, or to set it.

use vstd::prelude::*;

use crate::text;
use crate::text::opt_view;

verus! {

/// The settings of a repository. One that is absent is not overridden.
#[derive(Debug)]
pub struct RepoSettingsRow {
    pub check_run_reporting: Option<bool>,
    pub review_on_pr_open: Option<bool>,
    pub review_on_push: Option<bool>,
    pub push_strategy: Option<String>,
    pub push_debounce_seconds: Option<i32>,
    pub dedup_scope: Option<String>,
}

/// The mathematical value of a [`RepoSettingsRow`].
#[verifier::ext_equal]
pub struct SettingsView {
    pub check_run_reporting: Option<bool>,
    pub review_on_pr_open: Option<bool>,
    pub review_on_push: Option<bool>,
    pub push_strategy: Option<Seq<char>>,
    pub push_debounce_seconds: Option<i32>,
    pub dedup_scope: Option<Seq<char>>,
}

impl View for RepoSettingsRow {
    type V = SettingsView;

    open spec fn view(&self) -> SettingsView {
        SettingsView {
            check_run_reporting: self.check_run_reporting,
            review_on_pr_open: self.review_on_pr_open,
            review_on_push: self.review_on_push,
            push_strategy: opt_view(self.push_strategy),
            push_debounce_seconds: self.push_debounce_seconds,
            dedup_scope: opt_view(self.dedup_scope),
        }
    }
}

/// Nothing overridden.
pub open spec fn no_settings() -> SettingsView {
    SettingsView {
        check_run_reporting: None,
        review_on_pr_open: None,
        review_on_push: None,
        push_strategy: None,
        push_debounce_seconds: None,
        dedup_scope: None,
    }
}

/// What to do about each setting: leave it where absent, else clear it or set it.
#[derive(Debug)]
pub struct RepoSettingsPatch {
    pub check_run_reporting: Option<Option<bool>>,
    pub review_on_pr_open: Option<Option<bool>>,
    pub review_on_push: Option<Option<bool>>,
    pub push_strategy: Option<Option<String>>,
    pub push_debounce_seconds: Option<Option<i32>>,
    pub dedup_scope: Option<Option<String>>,
}

/// The mathematical value of a [`RepoSettingsPatch`].
pub struct PatchView {
    pub check_run_reporting: Option<Option<bool>>,
    pub review_on_pr_open: Option<Option<bool>>,
    pub review_on_push: Option<Option<bool>>,
    pub push_strategy: Option<Option<Seq<char>>>,
    pub push_debounce_seconds: Option<Option<i32>>,
    pub dedup_scope: Option<Option<Seq<char>>>,
}

/// The value of a patch of a text.
pub open spec fn text_patch(p: Option<Option<String>>) -> Option<Option<Seq<char>>> {
    match p {
        Some(v) => Some(opt_view(v)),
        None => None,
    }
}

impl View for RepoSettingsPatch {
    type V = PatchView;

    open spec fn view(&self) -> PatchView {
        PatchView {
            check_run_reporting: self.check_run_reporting,
            review_on_pr_open: self.review_on_pr_open,
            review_on_push: self.review_on_push,
            push_strategy: text_patch(self.push_strategy),
            push_debounce_seconds: self.push_debounce_seconds,
            dedup_scope: text_patch(self.dedup_scope),
        }
    }
}

/// Whether a patch leaves everything.
pub open spec fn leaves_all(p: PatchView) -> bool {
    &&& p.check_run_reporting is None
    &&& p.review_on_pr_open is None
    &&& p.review_on_push is None
    &&& p.push_strategy is None
    &&& p.push_debounce_seconds is None
    &&& p.dedup_scope is None
}

impl RepoSettingsPatch {
    /// Whether the patch leaves everything as it is.
    pub fn is_empty(&self) -> (r: bool)
        ensures
            r == leaves_all(self@),
    {
        self.check_run_reporting.is_none() && self.review_on_pr_open.is_none()
            && self.review_on_push.is_none() && self.push_strategy.is_none()
            && self.push_debounce_seconds.is_none() && self.dedup_scope.is_none()
    }
}

/// A setting after a patch.
pub open spec fn set_by<T>(old_value: Option<T>, patch: Option<Option<T>>) -> Option<T> {
    match patch {
        Some(v) => v,
        None => old_value,
    }
}

/// Settings after a patch.
pub open spec fn patched(s: SettingsView, p: PatchView) -> SettingsView {
    SettingsView {
        check_run_reporting: set_by(s.check_run_reporting, p.check_run_reporting),
        review_on_pr_open: set_by(s.review_on_pr_open, p.review_on_pr_open),
        review_on_push: set_by(s.review_on_push, p.review_on_push),
        push_strategy: set_by(s.push_strategy, p.push_strategy),
        push_debounce_seconds: set_by(s.push_debounce_seconds, p.push_debounce_seconds),
        dedup_scope: set_by(s.dedup_scope, p.dedup_scope),
    }
}

/// The settings of a repository as they are stored, with who set them.
#[derive(Debug)]
pub struct RepoSettings {
    pub settings: RepoSettingsRow,
    pub set_by: String,
    pub updated_at: i64,
}

/// The settings of a repository that may have none stored.
pub open spec fn settings_or_none(stored: Option<RepoSettings>) -> SettingsView {
    match stored {
        Some(s) => s.settings@,
        None => no_settings(),
    }
}

fn pick_text(old_value: Option<String>, patch: &Option<Option<String>>) -> (r: Option<String>)
    ensures
        opt_view(r) == set_by(opt_view(old_value), text_patch(*patch)),
{
    match patch {
        Some(v) => text::copy_opt(v),
        None => old_value,
    }
}

/// The settings that are stored of a repository.
pub fn get_repo_settings(stored: &Option<RepoSettings>) -> (r: Option<&RepoSettingsRow>)
    ensures
        match r {
            Some(row) => stored is Some && row@ == stored->0.settings@,
            None => stored is None,
        },
{
    match stored {
        Some(s) => Some(&s.settings),
        None => None,
    }
}

/// Applies a patch to the settings of a repository, and records who did.
pub fn set_repo_settings(
    stored: Option<RepoSettings>,
    patch: &RepoSettingsPatch,
    by: &str,
    now: i64,
) -> (r: RepoSettings)
    ensures
        r.settings@ == patched(settings_or_none(stored), patch@),
        r.set_by@ == by@,
        r.updated_at == now,
{
    let before: RepoSettingsRow = match stored {
        Some(s) => s.settings,
        None => RepoSettingsRow {
            check_run_reporting: None,
            review_on_pr_open: None,
            review_on_push: None,
            push_strategy: None,
            push_debounce_seconds: None,
            dedup_scope: None,
        },
    };
    let settings = RepoSettingsRow {
        check_run_reporting: match patch.check_run_reporting {
            Some(v) => v,
            None => before.check_run_reporting,
        },
        review_on_pr_open: match patch.review_on_pr_open {
            Some(v) => v,
            None => before.review_on_pr_open,
        },
        review_on_push: match patch.review_on_push {
            Some(v) => v,
            None => before.review_on_push,
        },
        push_strategy: pick_text(before.push_strategy, &patch.push_strategy),
        push_debounce_seconds: match patch.push_debounce_seconds {
            Some(v) => v,
            None => before.push_debounce_seconds,
        },
        dedup_scope: pick_text(before.dedup_scope, &patch.dedup_scope),
    };
    RepoSettings { settings, set_by: by.to_owned(), updated_at: now }
}

/// A patch that leaves everything changes no setting, and a patch applied twice does what it does once.
pub proof fn law_patches_settle(s: SettingsView, p: PatchView)
    ensures
        leaves_all(p) ==> patched(s, p) == s,
        patched(patched(s, p), p) == patched(s, p),
{
}

} // verus!
