//! The forges a repository can live on.

use vstd::prelude::*;

use crate::text;

verus! {

/// A code forge.
#[derive(Clone, Copy, Debug, PartialEq, Eq, Structural)]
pub enum Platform {
    GitHub,
    GitLab,
    Bitbucket,
}

/// The name a forge is written with.
pub open spec fn platform_name(p: Platform) -> Seq<char> {
    match p {
        Platform::GitHub => "github"@,
        Platform::GitLab => "gitlab"@,
        Platform::Bitbucket => "bitbucket"@,
    }
}

/// The forge of that name, if there is one.
pub open spec fn platform_of(name: Seq<char>) -> Option<Platform> {
    if name == "github"@ {
        Some(Platform::GitHub)
    } else if name == "gitlab"@ {
        Some(Platform::GitLab)
    } else if name == "bitbucket"@ {
        Some(Platform::Bitbucket)
    } else {
        None
    }
}

proof fn lemma_names_differ()
    ensures
        "github"@ != "gitlab"@,
        "github"@ != "bitbucket"@,
        "gitlab"@ != "bitbucket"@,
{
    reveal_strlit("github");
    reveal_strlit("gitlab");
    reveal_strlit("bitbucket");
    assert("github"@[3] != "gitlab"@[3]);
    assert("github"@.len() != "bitbucket"@.len());
    assert("gitlab"@.len() != "bitbucket"@.len());
}

impl Platform {
    /// The name of the forge.
    pub fn as_str(&self) -> (r: &'static str)
        ensures
            r@ == platform_name(*self),
    {
        match self {
            Platform::GitHub => "github",
            Platform::GitLab => "gitlab",
            Platform::Bitbucket => "bitbucket",
        }
    }

    /// The forge of that name, if there is one.
    pub fn from_name(name: &str) -> (r: Option<Platform>)
        ensures
            r == platform_of(name@),
    {
        if text::same(name, "github") {
            Some(Platform::GitHub)
        } else if text::same(name, "gitlab") {
            Some(Platform::GitLab)
        } else if text::same(name, "bitbucket") {
            Some(Platform::Bitbucket)
        } else {
            None
        }
    }
}

/// Reading a forge's name gives the forge back.
pub proof fn law_platform_survives_its_name(p: Platform)
    ensures
        platform_of(platform_name(p)) == Some(p),
{
    lemma_names_differ();
}

} // verus!
