//! The control plane's file configuration: its sections, their defaults and their validation.
//!
//! Every section is optional. A forge that is enabled must be configured completely; a configuration
//! that is not is refused with a sentence that names what is wrong.

use vstd::prelude::*;
use vstd::utf8::encode_utf8;

use crate::a2a::mapping::{debug_quoted, debug_text};
use crate::json::Json;
use crate::net;
use crate::net::{is_header_value, url_of_text};
use crate::text;
use crate::text::{contains_text, decimal, opt_view, trimmed};

verus! {

/// Why a configuration is refused.
#[derive(Debug)]
pub struct ConfigError {
    pub message: String,
}

impl View for ConfigError {
    type V = Seq<char>;

    open spec fn view(&self) -> Seq<char> {
        self.message@
    }
}

/// A setting that is not blank.
pub open spec fn non_blank(value: Option<Seq<char>>) -> Option<Seq<char>> {
    match value {
        Some(v) => if trimmed(v).len() == 0 {
            None
        } else {
            Some(v)
        },
        None => None,
    }
}

/// A setting that is not blank, else a default.
pub open spec fn setting_or(value: Option<Seq<char>>, default: Seq<char>) -> Seq<char> {
    match non_blank(value) {
        Some(v) => v,
        None => default,
    }
}

fn non_blank_or<'a>(value: &'a Option<String>, default: &'a str) -> (r: &'a str)
    ensures
        r@ == setting_or(opt_view(*value), default@),
{
    match value {
        Some(v) => if text::blank(v.as_str()) {
            default
        } else {
            v.as_str()
        },
        None => default,
    }
}

/// The first of the errors that is one.
pub open spec fn first_error(errors: Seq<Option<Seq<char>>>) -> Option<Seq<char>>
    decreases errors.len(),
{
    if errors.len() == 0 {
        None
    } else if errors[0] is Some {
        errors[0]
    } else {
        first_error(errors.drop_first())
    }
}

proof fn lemma_first_error(errors: Seq<Option<Seq<char>>>, i: int)
    requires
        0 <= i < errors.len(),
        errors[i] is Some,
        forall|j: int| 0 <= j < i ==> errors[j] is None,
    ensures
        first_error(errors) == errors[i],
    decreases i,
{
    if i > 0 {
        assert forall|j: int| 0 <= j < i - 1 implies errors.drop_first()[j] is None by {
            assert(errors.drop_first()[j] == errors[j + 1]);
        }
        lemma_first_error(errors.drop_first(), i - 1);
    }
}

proof fn lemma_no_error(errors: Seq<Option<Seq<char>>>)
    requires
        forall|j: int| 0 <= j < errors.len() ==> errors[j] is None,
    ensures
        first_error(errors) is None,
    decreases errors.len(),
{
    if errors.len() > 0 {
        assert(errors[0] is None);
        assert forall|j: int| 0 <= j < errors.len() - 1 implies errors.drop_first()[j] is None by {
            assert(errors.drop_first()[j] == errors[j + 1]);
        }
        lemma_no_error(errors.drop_first());
    }
}

proof fn lemma_none_failed(errors: Seq<Option<Seq<char>>>, i: int)
    requires
        first_error(errors) is None,
        0 <= i < errors.len(),
    ensures
        errors[i] is None,
    decreases i,
{
    if i > 0 {
        assert(errors.drop_first()[i - 1] == errors[i]);
        lemma_none_failed(errors.drop_first(), i - 1);
    }
}

/// A GitLab project.
#[derive(Debug)]
pub struct GitlabProjectConfig {
    pub project_id: i64,
    pub api_url: Option<String>,
    pub access_token: String,
    pub webhook_secret: String,
    pub bot_handle: Option<String>,
}

/// GitLab.
#[derive(Debug, Default)]
pub struct GitlabSection {
    pub enabled: bool,
    pub default_api_url: Option<String>,
    pub default_bot_handle: Option<String>,
    pub projects: Vec<GitlabProjectConfig>,
}

/// The sentence about a GitLab project.
pub open spec fn gitlab_says(project_id: i64, what: Seq<char>) -> Seq<char> {
    "GitLab project "@ + decimal(project_id as int) + what
}

fn gitlab_error_text(project_id: i64, what: &str) -> (r: String)
    ensures
        r@ == gitlab_says(project_id, what@),
{
    let mut r: String = "GitLab project ".to_owned();
    r.append(text::i64_text(project_id).as_str());
    r.append(what);
    r
}

/// Whether a scheme is one of the web's.
pub open spec fn is_web_scheme(scheme: Seq<char>) -> bool {
    scheme == "http"@ || scheme == "https"@
}

impl GitlabSection {
    /// The API URL of projects that have none of their own.
    pub open spec fn spec_default_api_url(self) -> Seq<char> {
        setting_or(opt_view(self.default_api_url), "https://gitlab.com/api/v4"@)
    }

    /// The bot handle of projects that have none of their own.
    pub open spec fn spec_default_bot_handle(self) -> Seq<char> {
        setting_or(opt_view(self.default_bot_handle), "lightbridge-bot"@)
    }

    /// The API URL of a project.
    pub open spec fn spec_api_url(self, project: GitlabProjectConfig) -> Seq<char> {
        setting_or(opt_view(project.api_url), self.spec_default_api_url())
    }

    /// What is wrong with the project at a place, in the order in which it is looked for.
    pub open spec fn project_error(self, i: int) -> Option<Seq<char>> {
        let p = self.projects@[i];
        let id = p.project_id;
        let repeated = exists|j: int| 0 <= j < i && (#[trigger] self.projects@[j]).project_id == id;
        match url_of_text(self.spec_api_url(p)) {
            _ if repeated => Some("duplicate GitLab project_id "@ + decimal(id as int)),
            Err(reason) => Some(gitlab_says(id, " api_url is not a valid URL: "@ + reason)),
            Ok(url) => if !is_web_scheme(url.scheme) {
                Some(gitlab_says(id, " api_url must use http or https"@))
            } else if trimmed(p.access_token@).len() == 0 {
                Some(gitlab_says(id, " has empty access_token"@))
            } else if trimmed(p.webhook_secret@).len() == 0 {
                Some(gitlab_says(id, " has empty webhook_secret"@))
            } else if !is_header_value(p.access_token@) {
                Some(gitlab_says(id, " access_token is not a valid header value"@))
            } else if !is_header_value(p.webhook_secret@) {
                Some(gitlab_says(id, " webhook_secret is not a valid header value"@))
            } else {
                None
            },
        }
    }

    /// What is wrong with each project.
    pub open spec fn project_errors(self) -> Seq<Option<Seq<char>>> {
        Seq::new(self.projects@.len(), |i: int| self.project_error(i))
    }

    /// What is wrong with the section, if anything.
    pub open spec fn error(self) -> Option<Seq<char>> {
        if !self.enabled {
            None
        } else if self.projects@.len() == 0 {
            Some("gitlab.enabled=true requires at least one gitlab.projects[] entry"@)
        } else {
            first_error(self.project_errors())
        }
    }

    /// The API URL of projects that have none of their own.
    pub fn default_api_url(&self) -> (r: &str)
        ensures
            r@ == self.spec_default_api_url(),
    {
        non_blank_or(&self.default_api_url, "https://gitlab.com/api/v4")
    }

    /// The bot handle of projects that have none of their own.
    pub fn default_bot_handle(&self) -> (r: &str)
        ensures
            r@ == self.spec_default_bot_handle(),
    {
        non_blank_or(&self.default_bot_handle, "lightbridge-bot")
    }

    /// The API URL of a project.
    pub fn resolved_api_url<'a>(&'a self, project: &'a GitlabProjectConfig) -> (r: &'a str)
        ensures
            r@ == self.spec_api_url(*project),
    {
        non_blank_or(&project.api_url, self.default_api_url())
    }

    /// The bot handle of a project.
    pub fn resolved_bot_handle<'a>(&'a self, project: &'a GitlabProjectConfig) -> (r: &'a str)
        ensures
            r@ == setting_or(opt_view(project.bot_handle), self.spec_default_bot_handle()),
    {
        non_blank_or(&project.bot_handle, self.default_bot_handle())
    }

    fn check_project(&self, i: usize) -> (r: Result<(), ConfigError>)
        requires
            i < self.projects@.len(),
        ensures
            match r {
                Ok(_) => self.project_error(i as int) is None,
                Err(e) => self.project_error(i as int) == Some(e@),
            },
    {
        let project = &self.projects[i];
        let id: i64 = project.project_id;
        let mut j: usize = 0;
        while j < i
            invariant
                j <= i < self.projects@.len(),
                *project == self.projects@[i as int],
                id == project.project_id,
                forall|k: int| 0 <= k < j ==> (#[trigger] self.projects@[k]).project_id != id,
            decreases i - j,
        {
            if self.projects[j].project_id == id {
                assert(self.projects@[j as int].project_id == id);
                let mut message: String = "duplicate GitLab project_id ".to_owned();
                message.append(text::i64_text(id).as_str());
                return Err(ConfigError { message });
            }
            j = j + 1;
        }
        match net::parse_url(self.resolved_api_url(project)) {
            Err(reason) => {
                let mut what: String = " api_url is not a valid URL: ".to_owned();
                what.append(reason.as_str());
                return Err(ConfigError { message: gitlab_error_text(id, what.as_str()) });
            },
            Ok(url) => {
                if !text::same(url.scheme.as_str(), "http") && !text::same(
                    url.scheme.as_str(),
                    "https",
                ) {
                    return Err(
                        ConfigError {
                            message: gitlab_error_text(id, " api_url must use http or https"),
                        },
                    );
                }
            },
        }
        if text::blank(project.access_token.as_str()) {
            return Err(ConfigError { message: gitlab_error_text(id, " has empty access_token") });
        }
        if text::blank(project.webhook_secret.as_str()) {
            return Err(ConfigError { message: gitlab_error_text(id, " has empty webhook_secret") });
        }
        if !net::header_value_ok(project.access_token.as_str()) {
            return Err(
                ConfigError {
                    message: gitlab_error_text(id, " access_token is not a valid header value"),
                },
            );
        }
        if !net::header_value_ok(project.webhook_secret.as_str()) {
            return Err(
                ConfigError {
                    message: gitlab_error_text(id, " webhook_secret is not a valid header value"),
                },
            );
        }
        Ok(())
    }

    /// Refuses an enabled section that is not complete: no projects, a project twice, a URL that is not
    /// one of the web's, or a secret that is blank or cannot travel in a header.
    pub fn validate(&self) -> (r: Result<(), ConfigError>)
        ensures
            match r {
                Ok(_) => self.error() is None,
                Err(e) => self.error() == Some(e@),
            },
    {
        if !self.enabled {
            return Ok(());
        }
        if self.projects.len() == 0 {
            return Err(
                ConfigError {
                    message:
                        "gitlab.enabled=true requires at least one gitlab.projects[] entry".to_owned(),
                },
            );
        }
        let ghost errors = self.project_errors();
        let mut i: usize = 0;
        while i < self.projects.len()
            invariant
                i <= self.projects@.len(),
                self.enabled,
                self.projects@.len() > 0,
                errors == self.project_errors(),
                forall|j: int| 0 <= j < i ==> errors[j] is None,
            decreases self.projects@.len() - i,
        {
            if let Err(e) = self.check_project(i) {
                proof {
                    assert(errors[i as int] == self.project_error(i as int));
                    lemma_first_error(errors, i as int);
                }
                return Err(e);
            }
            assert(errors[i as int] == self.project_error(i as int));
            i = i + 1;
        }
        proof {
            lemma_no_error(errors);
        }
        Ok(())
    }
}

/// A validated GitLab section names every project once, and each has a URL of the web and secrets that
/// are not blank and travel in a header.
pub proof fn law_valid_gitlab_is_complete(section: GitlabSection)
    requires
        section.enabled,
        section.error() is None,
    ensures
        section.projects@.len() > 0,
        forall|i: int|
            0 <= i < section.projects@.len() ==> {
                let p = #[trigger] section.projects@[i];
                &&& url_of_text(section.spec_api_url(p)) is Ok
                &&& is_web_scheme(url_of_text(section.spec_api_url(p))->Ok_0.scheme)
                &&& trimmed(p.access_token@).len() > 0
                &&& trimmed(p.webhook_secret@).len() > 0
                &&& is_header_value(p.access_token@)
                &&& is_header_value(p.webhook_secret@)
            },
        forall|i: int, j: int|
            0 <= j < i < section.projects@.len() ==> (#[trigger] section.projects@[i]).project_id
                != (#[trigger] section.projects@[j]).project_id,
{
    assert forall|i: int| 0 <= i < section.projects@.len() implies section.project_error(i)
        is None by {
        lemma_none_failed(section.project_errors(), i);
        assert(section.project_errors()[i] == section.project_error(i));
    }
    assert forall|i: int| 0 <= i < section.projects@.len() implies ({
        let p = #[trigger] section.projects@[i];
        &&& url_of_text(section.spec_api_url(p)) is Ok
        &&& is_web_scheme(url_of_text(section.spec_api_url(p))->Ok_0.scheme)
        &&& trimmed(p.access_token@).len() > 0
        &&& trimmed(p.webhook_secret@).len() > 0
        &&& is_header_value(p.access_token@)
        &&& is_header_value(p.webhook_secret@)
    }) by {
        assert(section.project_error(i) is None);
    }
    assert forall|i: int, j: int| 0 <= j < i < section.projects@.len() implies (
    #[trigger] section.projects@[i]).project_id != (#[trigger] section.projects@[j]).project_id by {
        assert(section.project_error(i) is None);
    }
}

/// The most bytes a SHA-256 digest can be taken of.
pub const MAX_DIGEST_INPUT: u64 = 0x1fff_ffff_ffff_ffff;

/// The SHA-256 digest of bytes, as `ring::digest::digest` computes it.
pub uninterp spec fn sha256_of(data: Seq<u8>) -> Seq<u8>;

/// `ring::digest::digest` with `SHA256`: thirty-two bytes that depend on the data alone.
#[verifier::external_body]
fn sha256(data: &[u8]) -> (r: Vec<u8>)
    requires
        data@.len() <= MAX_DIGEST_INPUT,
    ensures
        r@ == sha256_of(data@),
        r@.len() == 32,
{
    ring::digest::digest(&ring::digest::SHA256, data).as_ref().to_vec()
}

/// The number that bytes write, the most significant first.
pub open spec fn big_endian(bytes: Seq<u8>) -> int
    decreases bytes.len(),
{
    if bytes.len() == 0 {
        0
    } else {
        big_endian(bytes.drop_last()) * 256 + bytes.last()
    }
}

/// The signed number of a digest: its first eight bytes, the most significant first, in two's
/// complement.
pub open spec fn signed_prefix(digest: Seq<u8>) -> int {
    let n = big_endian(digest.take(8));
    if n > i64::MAX {
        n - 0x1_0000_0000_0000_0000
    } else {
        n
    }
}

/// The signed number of a digest.
pub fn signed_prefix_of(digest: &Vec<u8>) -> (r: i64)
    requires
        digest@.len() >= 8,
    ensures
        r == signed_prefix(digest@),
{
    let mut n: u128 = 0;
    let mut bound: u128 = 1;
    let mut i: usize = 0;
    while i < 8
        invariant
            i <= 8 <= digest@.len(),
            n == big_endian(digest@.take(i as int)),
            n < bound,
            bound == (if i == 0 {
                1int
            } else if i == 1 {
                0x100
            } else if i == 2 {
                0x1_0000
            } else if i == 3 {
                0x100_0000
            } else if i == 4 {
                0x1_0000_0000
            } else if i == 5 {
                0x100_0000_0000
            } else if i == 6 {
                0x1_0000_0000_0000
            } else if i == 7 {
                0x100_0000_0000_0000
            } else {
                0x1_0000_0000_0000_0000
            }),
        decreases 8 - i,
    {
        assert(digest@.take(i + 1).drop_last() =~= digest@.take(i as int));
        n = n * 256 + digest[i] as u128;
        bound = bound * 256;
        i = i + 1;
    }
    if n > i64::MAX as u128 {
        (n as i128 - 0x1_0000_0000_0000_0000) as i64
    } else {
        n as i64
    }
}

/// A Bitbucket repository.
#[derive(Debug)]
pub struct BitbucketProjectConfig {
    pub workspace: String,
    pub repo_slug: String,
    pub api_url: Option<String>,
    pub email: String,
    pub api_token: String,
    pub webhook_secret: String,
    pub bot_handle: Option<String>,
}

impl BitbucketProjectConfig {
    /// The full name.
    pub open spec fn spec_full_name(self) -> Seq<char> {
        self.workspace@ + "/"@ + self.repo_slug@
    }

    /// `workspace/repo_slug`.
    pub fn full_name(&self) -> (r: String)
        ensures
            r@ == self.spec_full_name(),
    {
        let mut r: String = self.workspace.clone();
        r.append("/");
        r.append(self.repo_slug.as_str());
        r
    }

    /// A number that stands for the repository: it depends on the full name alone.
    pub fn stable_id(&self) -> (r: i64)
        requires
            encode_utf8(self.spec_full_name()).len() <= MAX_DIGEST_INPUT,
        ensures
            r == signed_prefix(sha256_of(encode_utf8(self.spec_full_name()))),
    {
        let name: String = self.full_name();
        let digest: Vec<u8> = sha256(name.as_str().as_bytes());
        signed_prefix_of(&digest)
    }
}

/// Bitbucket.
#[derive(Debug, Default)]
pub struct BitbucketSection {
    pub enabled: bool,
    pub default_api_url: Option<String>,
    pub default_bot_handle: Option<String>,
    pub projects: Vec<BitbucketProjectConfig>,
}

/// The sentence about a Bitbucket repository.
pub open spec fn bitbucket_says(name: Seq<char>, what: Seq<char>) -> Seq<char> {
    "Bitbucket project "@ + name + what
}

fn bitbucket_error_text(name: &str, what: &str) -> (r: String)
    ensures
        r@ == bitbucket_says(name@, what@),
{
    let mut r: String = "Bitbucket project ".to_owned();
    r.append(name);
    r.append(what);
    r
}

impl BitbucketSection {
    /// The API URL of repositories that have none of their own.
    pub open spec fn spec_default_api_url(self) -> Seq<char> {
        setting_or(opt_view(self.default_api_url), "https://api.bitbucket.org/2.0"@)
    }

    /// The bot handle of repositories that have none of their own.
    pub open spec fn spec_default_bot_handle(self) -> Seq<char> {
        setting_or(opt_view(self.default_bot_handle), "lightbridge-bot"@)
    }

    /// The API URL of a repository.
    pub open spec fn spec_api_url(self, project: BitbucketProjectConfig) -> Seq<char> {
        setting_or(opt_view(project.api_url), self.spec_default_api_url())
    }

    /// What is wrong with the repository at a place, in the order in which it is looked for.
    pub open spec fn project_error(self, i: int) -> Option<Seq<char>> {
        let p = self.projects@[i];
        let name = p.spec_full_name();
        let repeated = exists|j: int|
            0 <= j < i && (#[trigger] self.projects@[j]).spec_full_name() == name;
        if repeated {
            Some("duplicate Bitbucket project "@ + name)
        } else if trimmed(p.workspace@).len() == 0 {
            Some("Bitbucket project has empty workspace"@)
        } else if trimmed(p.repo_slug@).len() == 0 {
            Some(bitbucket_says(name, " has empty repo_slug"@))
        } else {
            match url_of_text(self.spec_api_url(p)) {
                Err(reason) => Some(
                    bitbucket_says(name, " api_url is not a valid URL: "@ + reason),
                ),
                Ok(url) => if !is_web_scheme(url.scheme) {
                    Some(bitbucket_says(name, " api_url must use http or https"@))
                } else if trimmed(p.email@).len() == 0 {
                    Some(bitbucket_says(name, " has empty email"@))
                } else if trimmed(p.api_token@).len() == 0 {
                    Some(bitbucket_says(name, " has empty api_token"@))
                } else if trimmed(p.webhook_secret@).len() == 0 {
                    Some(bitbucket_says(name, " has empty webhook_secret"@))
                } else {
                    None
                },
            }
        }
    }

    /// What is wrong with each repository.
    pub open spec fn project_errors(self) -> Seq<Option<Seq<char>>> {
        Seq::new(self.projects@.len(), |i: int| self.project_error(i))
    }

    /// What is wrong with the section, if anything.
    pub open spec fn error(self) -> Option<Seq<char>> {
        if !self.enabled {
            None
        } else if self.projects@.len() == 0 {
            Some("bitbucket.enabled=true requires at least one bitbucket.projects[] entry"@)
        } else {
            first_error(self.project_errors())
        }
    }

    /// The API URL of repositories that have none of their own.
    pub fn default_api_url(&self) -> (r: &str)
        ensures
            r@ == self.spec_default_api_url(),
    {
        non_blank_or(&self.default_api_url, "https://api.bitbucket.org/2.0")
    }

    /// The bot handle of repositories that have none of their own.
    pub fn default_bot_handle(&self) -> (r: &str)
        ensures
            r@ == self.spec_default_bot_handle(),
    {
        non_blank_or(&self.default_bot_handle, "lightbridge-bot")
    }

    /// The API URL of a repository.
    pub fn resolved_api_url<'a>(&'a self, project: &'a BitbucketProjectConfig) -> (r: &'a str)
        ensures
            r@ == self.spec_api_url(*project),
    {
        non_blank_or(&project.api_url, self.default_api_url())
    }

    /// The bot handle of a repository.
    pub fn resolved_bot_handle<'a>(&'a self, project: &'a BitbucketProjectConfig) -> (r: &'a str)
        ensures
            r@ == setting_or(opt_view(project.bot_handle), self.spec_default_bot_handle()),
    {
        non_blank_or(&project.bot_handle, self.default_bot_handle())
    }

    fn check_project(&self, i: usize) -> (r: Result<(), ConfigError>)
        requires
            i < self.projects@.len(),
        ensures
            match r {
                Ok(_) => self.project_error(i as int) is None,
                Err(e) => self.project_error(i as int) == Some(e@),
            },
    {
        let project = &self.projects[i];
        let name: String = project.full_name();
        let mut j: usize = 0;
        while j < i
            invariant
                j <= i < self.projects@.len(),
                *project == self.projects@[i as int],
                name@ == project.spec_full_name(),
                forall|k: int|
                    0 <= k < j ==> (#[trigger] self.projects@[k]).spec_full_name() != name@,
            decreases i - j,
        {
            let other: String = self.projects[j].full_name();
            if text::same(other.as_str(), name.as_str()) {
                assert(self.projects@[j as int].spec_full_name() == name@);
                let mut message: String = "duplicate Bitbucket project ".to_owned();
                message.append(name.as_str());
                return Err(ConfigError { message });
            }
            j = j + 1;
        }
        if text::blank(project.workspace.as_str()) {
            return Err(
                ConfigError { message: "Bitbucket project has empty workspace".to_owned() },
            );
        }
        if text::blank(project.repo_slug.as_str()) {
            return Err(
                ConfigError {
                    message: bitbucket_error_text(name.as_str(), " has empty repo_slug"),
                },
            );
        }
        match net::parse_url(self.resolved_api_url(project)) {
            Err(reason) => {
                let mut what: String = " api_url is not a valid URL: ".to_owned();
                what.append(reason.as_str());
                return Err(
                    ConfigError { message: bitbucket_error_text(name.as_str(), what.as_str()) },
                );
            },
            Ok(url) => {
                if !text::same(url.scheme.as_str(), "http") && !text::same(
                    url.scheme.as_str(),
                    "https",
                ) {
                    return Err(
                        ConfigError {
                            message: bitbucket_error_text(
                                name.as_str(),
                                " api_url must use http or https",
                            ),
                        },
                    );
                }
            },
        }
        if text::blank(project.email.as_str()) {
            return Err(
                ConfigError { message: bitbucket_error_text(name.as_str(), " has empty email") },
            );
        }
        if text::blank(project.api_token.as_str()) {
            return Err(
                ConfigError {
                    message: bitbucket_error_text(name.as_str(), " has empty api_token"),
                },
            );
        }
        if text::blank(project.webhook_secret.as_str()) {
            return Err(
                ConfigError {
                    message: bitbucket_error_text(name.as_str(), " has empty webhook_secret"),
                },
            );
        }
        Ok(())
    }

    /// Refuses an enabled section that is not complete: no repositories, one twice, a URL that is not
    /// one of the web's, or a blank name, email or secret.
    pub fn validate(&self) -> (r: Result<(), ConfigError>)
        ensures
            match r {
                Ok(_) => self.error() is None,
                Err(e) => self.error() == Some(e@),
            },
    {
        if !self.enabled {
            return Ok(());
        }
        if self.projects.len() == 0 {
            return Err(
                ConfigError {
                    message:
                        "bitbucket.enabled=true requires at least one bitbucket.projects[] entry".to_owned(),
                },
            );
        }
        let ghost errors = self.project_errors();
        let mut i: usize = 0;
        while i < self.projects.len()
            invariant
                i <= self.projects@.len(),
                self.enabled,
                self.projects@.len() > 0,
                errors == self.project_errors(),
                forall|j: int| 0 <= j < i ==> errors[j] is None,
            decreases self.projects@.len() - i,
        {
            if let Err(e) = self.check_project(i) {
                proof {
                    assert(errors[i as int] == self.project_error(i as int));
                    lemma_first_error(errors, i as int);
                }
                return Err(e);
            }
            assert(errors[i as int] == self.project_error(i as int));
            i = i + 1;
        }
        proof {
            lemma_no_error(errors);
        }
        Ok(())
    }
}

/// A validated Bitbucket section names every repository once, and each has a URL of the web and a name,
/// an email and secrets that are not blank.
pub proof fn law_valid_bitbucket_is_complete(section: BitbucketSection)
    requires
        section.enabled,
        section.error() is None,
    ensures
        section.projects@.len() > 0,
        forall|i: int|
            0 <= i < section.projects@.len() ==> {
                let p = #[trigger] section.projects@[i];
                &&& url_of_text(section.spec_api_url(p)) is Ok
                &&& is_web_scheme(url_of_text(section.spec_api_url(p))->Ok_0.scheme)
                &&& trimmed(p.workspace@).len() > 0
                &&& trimmed(p.repo_slug@).len() > 0
                &&& trimmed(p.email@).len() > 0
                &&& trimmed(p.api_token@).len() > 0
                &&& trimmed(p.webhook_secret@).len() > 0
            },
        forall|i: int, j: int|
            0 <= j < i < section.projects@.len() ==> (
            #[trigger] section.projects@[i]).spec_full_name() != (
            #[trigger] section.projects@[j]).spec_full_name(),
{
    assert forall|i: int| 0 <= i < section.projects@.len() implies section.project_error(i)
        is None by {
        lemma_none_failed(section.project_errors(), i);
        assert(section.project_errors()[i] == section.project_error(i));
    }
    assert forall|i: int| 0 <= i < section.projects@.len() implies ({
        let p = #[trigger] section.projects@[i];
        &&& url_of_text(section.spec_api_url(p)) is Ok
        &&& is_web_scheme(url_of_text(section.spec_api_url(p))->Ok_0.scheme)
        &&& trimmed(p.workspace@).len() > 0
        &&& trimmed(p.repo_slug@).len() > 0
        &&& trimmed(p.email@).len() > 0
        &&& trimmed(p.api_token@).len() > 0
        &&& trimmed(p.webhook_secret@).len() > 0
    }) by {
        assert(section.project_error(i) is None);
    }
    assert forall|i: int, j: int| 0 <= j < i < section.projects@.len() implies (
    #[trigger] section.projects@[i]).spec_full_name() != (
    #[trigger] section.projects@[j]).spec_full_name() by {
        assert(section.project_error(i) is None);
    }
}

/// Repositories of one full name have one number, whatever else is configured for them.
pub proof fn law_stable_id_follows_the_name(a: BitbucketProjectConfig, b: BitbucketProjectConfig)
    requires
        a.workspace@ == b.workspace@,
        a.repo_slug@ == b.repo_slug@,
    ensures
        signed_prefix(sha256_of(encode_utf8(a.spec_full_name()))) == signed_prefix(
            sha256_of(encode_utf8(b.spec_full_name())),
        ),
{
}

/// One tool server.
#[derive(Debug)]
pub struct McpServerConfig {
    pub name: String,
    pub url: String,
}

/// The refusal of a server name that holds two underscores in a row.
pub open spec fn bad_server_name(name: Seq<char>) -> Seq<char> {
    "mcp server name "@ + debug_text(name)
        + " must not contain \"__\" — it would break the mcp__<name>__<tool> prefix's unambiguous split"@
}

impl McpServerConfig {
    /// A server, unless its name holds two underscores in a row.
    pub fn new(name: String, url: String) -> (r: Result<McpServerConfig, ConfigError>)
        ensures
            match r {
                Ok(server) => !contains_text(name@, "__"@) && server.name@ == name@ && server.url@
                    == url@,
                Err(e) => contains_text(name@, "__"@) && e@ == bad_server_name(name@),
            },
    {
        if text::contains(name.as_str(), "__") {
            let mut message: String = "mcp server name ".to_owned();
            message.append(debug_quoted(name.as_str()).as_str());
            message.append(
                " must not contain \"__\" — it would break the mcp__<name>__<tool> prefix's unambiguous split",
            );
            return Err(ConfigError { message });
        }
        Ok(McpServerConfig { name, url })
    }
}

/// The tool servers.
#[derive(Debug, Default)]
pub struct KnowledgeToolsSection {
    pub mcp_servers: Vec<McpServerConfig>,
}

/// The embedding store.
#[derive(Clone, Copy, Debug, Default)]
pub struct EmbeddingsSection {
    pub dimension: Option<i64>,
    pub allow_reindex_on_dim_change: bool,
}

/// What a review leaves on a pull request.
#[derive(Debug, Default)]
pub struct ReviewSection {
    pub reactions: Option<bool>,
    pub label_reviewed: Option<String>,
    pub label_findings: Option<String>,
    pub label_error: Option<String>,
    pub skip_bot_authored_prs: Option<bool>,
}

/// A switch that is on unless it is switched off.
pub open spec fn on_unless_off(value: Option<bool>) -> bool {
    value != Some(false)
}

impl ReviewSection {
    /// Whether a review reacts to the pull request.
    pub fn reactions_enabled(&self) -> (r: bool)
        ensures
            r == on_unless_off(self.reactions),
    {
        match self.reactions {
            Some(on) => on,
            None => true,
        }
    }

    /// Whether pull requests by bots are passed over.
    pub fn skip_bot_authored_prs(&self) -> (r: bool)
        ensures
            r == on_unless_off(self.skip_bot_authored_prs),
    {
        match self.skip_bot_authored_prs {
            Some(on) => on,
            None => true,
        }
    }
}

/// The jobs that runs are launched as.
#[derive(Debug, Default)]
pub struct AgentSection {
    pub namespace: Option<String>,
    pub runner_image: Option<String>,
    pub indexer_runner_image: Option<String>,
    pub review_runner_image: Option<String>,
    pub service_account: Option<String>,
    pub control_plane_url: Option<String>,
    pub ca_secret: Option<String>,
    pub config_configmap: Option<String>,
    pub job_deadline_seconds: Option<i64>,
    pub review_system_prompt: Option<String>,
    pub resources: Option<Json>,
    pub indexer_resources: Option<Json>,
    pub review_resources: Option<Json>,
}

/// The dispatcher's timings.
#[derive(Clone, Copy, Debug, Default)]
pub struct DispatcherSection {
    pub claim_lease_seconds: Option<u64>,
    pub poll_fallback_seconds: Option<u64>,
    pub launch_backoff_seconds: Option<u64>,
    pub reap_interval_seconds: Option<u64>,
    pub prune_interval_seconds: Option<u64>,
    pub purge_reconcile_interval_seconds: Option<u64>,
    pub outbox_posted_retention_days: Option<i64>,
    pub outbox_failed_retention_days: Option<i64>,
}

/// The whole file.
#[derive(Debug, Default)]
pub struct FileConfig {
    pub agent: AgentSection,
    pub dispatcher: DispatcherSection,
    pub review: ReviewSection,
    pub embeddings: EmbeddingsSection,
    pub knowledge_tools: KnowledgeToolsSection,
    pub gitlab: GitlabSection,
    pub bitbucket: BitbucketSection,
}

/// How platform posts leave.
#[derive(Clone, Copy, Debug, PartialEq, Eq, Structural)]
pub enum EgressMode {
    /// The outbox is drained.
    Drain,
    /// Each post is announced to the workflow engine.
    Restate,
}

impl Default for EgressMode {
    fn default() -> (r: EgressMode)
        ensures
            r == EgressMode::Drain,
    {
        EgressMode::Drain
    }
}

/// The name a mode is configured with.
pub open spec fn mode_of(name: Seq<char>) -> Option<EgressMode> {
    if name == "drain"@ {
        Some(EgressMode::Drain)
    } else if name == "restate"@ {
        Some(EgressMode::Restate)
    } else {
        None
    }
}

impl EgressMode {
    /// The mode of a name, if there is one.
    pub fn from_name(name: &str) -> (r: Option<EgressMode>)
        ensures
            r == mode_of(name@),
    {
        if text::same(name, "drain") {
            Some(EgressMode::Drain)
        } else if text::same(name, "restate") {
            Some(EgressMode::Restate)
        } else {
            None
        }
    }
}

/// Egress.
#[derive(Debug)]
pub struct EgressSection {
    pub mode: EgressMode,
    pub restate_ingress_url: Option<String>,
}

impl Default for EgressSection {
    fn default() -> (r: EgressSection)
        ensures
            r.mode == EgressMode::Drain,
            r.restate_ingress_url is None,
    {
        EgressSection { mode: EgressMode::Drain, restate_ingress_url: None }
    }
}

} // verus!
