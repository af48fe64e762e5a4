//! The hosting services that a project can live at.

use crate::action::{GitAction, GitActionView};
use crate::repository::Repository;
use crate::text::same_text;
use vstd::prelude::*;
use vstd::string::*;

verus! {

/// A hosting service for remote repositories. The set is closed.
#[derive(Clone, Copy, Debug, PartialEq, Eq, Structural)]
pub enum Provider {
    Github,
}

/// The provider that `name` stands for: its bare name or its domain, letter for
/// letter. Every other string stands for none.
pub open spec fn provider_of(name: Seq<char>) -> Option<Provider> {
    if name == "github"@ || name == "github.com"@ {
        Some(Provider::Github)
    } else {
        None
    }
}

impl Provider {
    /// The address under which the provider keeps its repositories.
    pub open spec fn base_url(self) -> Seq<char> {
        match self {
            Provider::Github => "https://github.com"@,
        }
    }

    /// The address to clone the repository at `path` from.
    pub open spec fn clone_url(self, path: Seq<char>) -> Seq<char> {
        self.base_url() + seq!['/'] + path
    }

    /// The provider named by `provider`, as a manifest, a host name or a command
    /// line spells it.
    pub fn from(provider: &str) -> (r: Option<Provider>)
        ensures
            r == provider_of(provider@),
    {
        if same_text(provider, "github") || same_text(provider, "github.com") {
            Some(Provider::Github)
        } else {
            None
        }
    }

    /// The address under which the provider keeps its repositories.
    pub fn get_url(&self) -> (r: &'static str)
        ensures
            r@ == self.base_url(),
    {
        match *self {
            Provider::Github => "https://github.com",
        }
    }

    /// The invocation that pulls `repo`, in its local checkout.
    pub fn git_pull(&self, repo: &Repository) -> (r: GitAction)
        ensures
            r@ == (GitActionView::Pull { dir: repo@.local_path }),
    {
        match *self {
            Provider::Github => GitAction::Pull { dir: repo.local_path().to_owned() },
        }
    }

    /// The invocation that clones `repo` from this provider into the current
    /// directory.
    pub fn git_clone(&self, repo: &Repository) -> (r: GitAction)
        ensures
            r@ == (GitActionView::Clone { url: self.clone_url(repo@.git_path) }),
    {
        let mut url = self.get_url().to_owned();
        url.append("/");
        url.append(repo.git_path());
        proof {
            reveal_strlit("/");
            assert("/"@ == seq!['/']);
        }
        match *self {
            Provider::Github => GitAction::Clone { url },
        }
    }

    /// The invocation that fetches `repo`, in its local checkout.
    pub fn git_fetch(&self, repo: &Repository) -> (r: GitAction)
        ensures
            r@ == (GitActionView::Fetch { dir: repo@.local_path }),
    {
        match *self {
            Provider::Github => GitAction::Fetch { dir: repo.local_path().to_owned() },
        }
    }
}

} // verus!
