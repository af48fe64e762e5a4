//! A project as it was found on disk at one moment.

use crate::action::{GitAction, Step, StepView};
use vstd::prelude::*;
use vstd::string::*;

verus! {

/// One project's place on disk, its path at the provider, and whether a local
/// checkout was there when the caller looked. It is derived anew for every
/// operation and never kept.
#[derive(Clone, Debug, PartialEq, Eq)]
pub struct Repository {
    pub(crate) local_path: String,
    pub(crate) git_path: String,
    pub(crate) cloned: bool,
}

/// A [`Repository`] as a mathematical value.
pub struct RepositoryView {
    pub local_path: Seq<char>,
    pub git_path: Seq<char>,
    pub cloned: bool,
}

impl View for Repository {
    type V = RepositoryView;

    closed spec fn view(&self) -> RepositoryView {
        RepositoryView {
            local_path: self.local_path@,
            git_path: self.git_path@,
            cloned: self.cloned,
        }
    }
}

impl RepositoryView {
    /// The repository once `step` has been carried out with success: a clone
    /// leaves a local checkout behind, and nothing else changes.
    pub open spec fn after(self, step: StepView) -> RepositoryView {
        RepositoryView {
            cloned: self.cloned || (step matches StepView::Run(action)
                && action is Clone),
            ..self
        }
    }
}

impl Repository {
    pub(crate) fn new(local_path: String, git_path: String, cloned: bool) -> (r: Repository)
        ensures
            r@ == (RepositoryView { local_path: local_path@, git_path: git_path@, cloned }),
    {
        Repository { local_path, git_path, cloned }
    }

    /// Whether the project was checked out locally.
    pub fn exists_local(&self) -> (r: bool)
        ensures
            r == self@.cloned,
    {
        self.cloned
    }

    /// The folder of the local checkout.
    pub fn local_path(&self) -> (r: &str)
        ensures
            r@ == self@.local_path,
    {
        self.local_path.as_str()
    }

    /// The project's path at its provider.
    pub fn git_path(&self) -> (r: &str)
        ensures
            r@ == self@.git_path,
    {
        self.git_path.as_str()
    }

    /// The repository as it stands once `step` has been carried out with success.
    pub fn after(&self, step: &Step) -> (r: Repository)
        ensures
            r@ == self@.after(step@),
    {
        let cloned = match step {
            Step::Run(GitAction::Clone { url }) => true,
            _ => self.cloned,
        };
        Repository::new(self.local_path.clone(), self.git_path.clone(), cloned)
    }
}

} // verus!
