//! The list of projects as a mathematical sequence, and what adding to it and
//! removing from it mean. A project is known by its key: its provider together
//! with its path. No two projects of a manifest share a key.

use crate::project::ProjectView;
use crate::provider::{provider_of, Provider};
use crate::remote::{url_host_str, url_parses, url_path, RemoteUrlView};
use crate::text::{split, strip_one};
use vstd::prelude::*;

verus! {

/// Whether `project` has the key (`provider`, `path`). Both have to agree.
pub open spec fn same_key(project: ProjectView, provider: Provider, path: Seq<char>) -> bool {
    project.provider == provider && project.path == path
}

/// Whether some project of `projects` has the key (`provider`, `path`).
pub open spec fn contains_key(
    projects: Seq<ProjectView>,
    provider: Provider,
    path: Seq<char>,
) -> bool {
    exists|i: int| 0 <= i < projects.len() && same_key(#[trigger] projects[i], provider, path)
}

/// Whether no two projects of `projects` share a key.
pub open spec fn unique_keys(projects: Seq<ProjectView>) -> bool {
    forall|i: int, j: int|
        0 <= i < j < projects.len() ==> !same_key(
            #[trigger] projects[i],
            (#[trigger] projects[j]).provider,
            projects[j].path,
        )
}

/// `projects` with `project` at its end, unless its key is taken.
pub open spec fn insert(projects: Seq<ProjectView>, project: ProjectView) -> Seq<ProjectView> {
    if contains_key(projects, project.provider, project.path) {
        projects
    } else {
        projects.push(project)
    }
}

/// Each of `items` inserted into `projects`, in order.
pub open spec fn insert_all(projects: Seq<ProjectView>, items: Seq<ProjectView>) -> Seq<
    ProjectView,
> {
    items.fold_left(projects, |acc: Seq<ProjectView>, item: ProjectView| insert(acc, item))
}

/// `projects` without the projects of key (`provider`, `path`), the others in
/// their order.
pub open spec fn without(projects: Seq<ProjectView>, provider: Provider, path: Seq<char>) -> Seq<
    ProjectView,
> {
    projects.filter(|project: ProjectView| !same_key(project, provider, path))
}

/// The path that the manifest records for an address whose path component is
/// `url_path`: the same without one leading slash.
pub open spec fn manifest_path(url_path: Seq<char>) -> Seq<char> {
    strip_one(url_path, '/')
}

/// The words of a build command: the text split at every single space, or
/// nothing where no command was given.
pub open spec fn command_words(cmd: Option<Seq<char>>) -> Seq<Seq<char>> {
    match cmd {
        Some(text) => split(text, ' '),
        None => Seq::empty(),
    }
}

/// How an attempt to add a checkout to the manifest ended.
#[derive(Clone, Copy, Debug, PartialEq, Eq, Structural)]
pub enum AddOutcome {
    /// A new project stands at the end of the manifest.
    Added,
    /// The manifest has a project of that provider and path already.
    Duplicate,
    /// The directory is no checkout.
    NotARepository,
    /// The checkout's remote address could not be asked for.
    InvalidRemote,
    /// The remote address is no absolute address.
    UnparsableUrl,
    /// The remote address has no host.
    MissingHost,
    /// The host of the remote address is no known provider.
    UnknownProvider,
}

/// What was found where a checkout was looked for, as a mathematical value.
pub enum CheckoutView {
    NotARepository,
    NoRemote,
    Remote(Seq<char>),
}

/// The provider and manifest path that `remote` stands for, or why it stands
/// for none.
pub open spec fn resolve(remote: RemoteUrlView) -> Result<(Provider, Seq<char>), AddOutcome> {
    match remote.host {
        None => Err(AddOutcome::MissingHost),
        Some(host) => match provider_of(host) {
            None => Err(AddOutcome::UnknownProvider),
            Some(provider) => Ok((provider, manifest_path(remote.path))),
        },
    }
}

/// How adding the checkout with address `remote` to `projects` ends.
pub open spec fn remote_outcome(projects: Seq<ProjectView>, remote: RemoteUrlView) -> AddOutcome {
    match resolve(remote) {
        Err(outcome) => outcome,
        Ok((provider, path)) => if contains_key(projects, provider, path) {
            AddOutcome::Duplicate
        } else {
            AddOutcome::Added
        },
    }
}

/// `projects` after adding the checkout with address `remote` and build
/// command `cmd`.
pub open spec fn after_add_remote(
    projects: Seq<ProjectView>,
    remote: RemoteUrlView,
    cmd: Option<Seq<char>>,
) -> Seq<ProjectView> {
    match resolve(remote) {
        Err(_) => projects,
        Ok((provider, path)) => insert(
            projects,
            ProjectView { provider, path, cmd: command_words(cmd) },
        ),
    }
}

/// The address of `checkout`, or why it has none that can be read.
pub open spec fn remote_of(checkout: CheckoutView) -> Result<RemoteUrlView, AddOutcome> {
    match checkout {
        CheckoutView::NotARepository => Err(AddOutcome::NotARepository),
        CheckoutView::NoRemote => Err(AddOutcome::InvalidRemote),
        CheckoutView::Remote(text) => if url_parses(text) {
            Ok(RemoteUrlView { host: url_host_str(text), path: url_path(text) })
        } else {
            Err(AddOutcome::UnparsableUrl)
        },
    }
}

/// How adding `checkout` to `projects` ends.
pub open spec fn add_outcome(projects: Seq<ProjectView>, checkout: CheckoutView) -> AddOutcome {
    match remote_of(checkout) {
        Err(outcome) => outcome,
        Ok(remote) => remote_outcome(projects, remote),
    }
}

/// `projects` after adding `checkout` with build command `cmd`.
pub open spec fn after_add(
    projects: Seq<ProjectView>,
    checkout: CheckoutView,
    cmd: Option<Seq<char>>,
) -> Seq<ProjectView> {
    match remote_of(checkout) {
        Err(_) => projects,
        Ok(remote) => after_add_remote(projects, remote, cmd),
    }
}

/// One entry of a scanned directory, as a mathematical value.
pub struct EntryView {
    pub is_file: bool,
    pub checkout: CheckoutView,
}

/// `projects` after one scanned entry: a plain file is passed over, anything
/// else is added without a build command.
pub open spec fn after_entry(projects: Seq<ProjectView>, entry: EntryView) -> Seq<ProjectView> {
    if entry.is_file {
        projects
    } else {
        after_add(projects, entry.checkout, None)
    }
}

/// How one scanned entry ends: `None` for a plain file, which is passed over.
pub open spec fn entry_outcome(projects: Seq<ProjectView>, entry: EntryView) -> Option<
    AddOutcome,
> {
    if entry.is_file {
        None
    } else {
        Some(add_outcome(projects, entry.checkout))
    }
}

/// `projects` after a scan of `entries`, taken in order.
pub open spec fn after_scan(projects: Seq<ProjectView>, entries: Seq<EntryView>) -> Seq<
    ProjectView,
> {
    entries.fold_left(projects, |acc: Seq<ProjectView>, entry: EntryView| after_entry(acc, entry))
}

/// Removing a key that no project has leaves the list as it is.
pub proof fn lemma_without_absent(projects: Seq<ProjectView>, provider: Provider, path: Seq<char>)
    requires
        !contains_key(projects, provider, path),
    ensures
        without(projects, provider, path) == projects,
    decreases projects.len(),
{
    let keep = |project: ProjectView| !same_key(project, provider, path);
    reveal(Seq::filter);
    if projects.len() > 0 {
        let front = projects.drop_last();
        assert forall|i: int| 0 <= i < front.len() implies !same_key(
            #[trigger] front[i],
            provider,
            path,
        ) by {
            assert(front[i] == projects[i]);
        }
        lemma_without_absent(front, provider, path);
        assert(!same_key(projects[projects.len() - 1], provider, path));
        assert(front.push(projects.last()) == projects);
    }
}

/// Where the keys are unique, removing a key takes out the one project that
/// has it, and the others keep their order.
pub proof fn lemma_without_present(
    projects: Seq<ProjectView>,
    provider: Provider,
    path: Seq<char>,
    at: int,
)
    requires
        unique_keys(projects),
        0 <= at < projects.len(),
        same_key(projects[at], provider, path),
    ensures
        without(projects, provider, path) == projects.remove(at),
    decreases projects.len(),
{
    let keep = |project: ProjectView| !same_key(project, provider, path);
    reveal(Seq::filter);
    let front = projects.drop_last();
    let last = projects.len() - 1;
    if at == last {
        assert forall|i: int| 0 <= i < front.len() implies !same_key(
            #[trigger] front[i],
            provider,
            path,
        ) by {
            assert(front[i] == projects[i]);
            assert(!same_key(projects[i], projects[last].provider, projects[last].path));
        }
        lemma_without_absent(front, provider, path);
        assert(projects.remove(at) == front);
    } else {
        assert(!same_key(projects[at], projects[last].provider, projects[last].path));
        assert(unique_keys(front)) by {
            assert forall|i: int, j: int| 0 <= i < j < front.len() implies !same_key(
                #[trigger] front[i],
                (#[trigger] front[j]).provider,
                front[j].path,
            ) by {
                assert(front[i] == projects[i]);
                assert(front[j] == projects[j]);
            }
        }
        assert(front[at] == projects[at]);
        lemma_without_present(front, provider, path, at);
        assert(front.remove(at).push(projects.last()) == projects.remove(at));
    }
}

/// Inserting keeps the keys unique.
pub proof fn lemma_insert_unique(projects: Seq<ProjectView>, project: ProjectView)
    requires
        unique_keys(projects),
    ensures
        unique_keys(insert(projects, project)),
        contains_key(insert(projects, project), project.provider, project.path),
{
    let after = insert(projects, project);
    if contains_key(projects, project.provider, project.path) {
    } else {
        assert forall|i: int, j: int| 0 <= i < j < after.len() implies !same_key(
            #[trigger] after[i],
            (#[trigger] after[j]).provider,
            after[j].path,
        ) by {
            assert(after[i] == projects[i]);
            if j < projects.len() {
                assert(after[j] == projects[j]);
            } else {
                assert(after[j] == project);
            }
        }
        assert(same_key(after[projects.len() as int], project.provider, project.path));
    }
}

/// Removing keeps the keys unique, and leaves no project of the removed key.
pub proof fn lemma_without_unique(projects: Seq<ProjectView>, provider: Provider, path: Seq<char>)
    requires
        unique_keys(projects),
    ensures
        unique_keys(without(projects, provider, path)),
        !contains_key(without(projects, provider, path), provider, path),
{
    let after = without(projects, provider, path);
    if contains_key(projects, provider, path) {
        let at = choose|i: int| 0 <= i < projects.len() && same_key(
            #[trigger] projects[i],
            provider,
            path,
        );
        lemma_without_present(projects, provider, path, at);
        assert forall|i: int| 0 <= i < after.len() implies !same_key(
            #[trigger] after[i],
            provider,
            path,
        ) by {
            if i < at {
                assert(after[i] == projects[i]);
                assert(!same_key(projects[i], projects[at].provider, projects[at].path));
            } else {
                assert(after[i] == projects[i + 1]);
                assert(!same_key(projects[at], projects[i + 1].provider, projects[i + 1].path));
            }
        }
        assert forall|i: int, j: int| 0 <= i < j < after.len() implies !same_key(
            #[trigger] after[i],
            (#[trigger] after[j]).provider,
            after[j].path,
        ) by {
            let si = if i < at { i } else { i + 1 };
            let sj = if j < at { j } else { j + 1 };
            assert(after[i] == projects[si]);
            assert(after[j] == projects[sj]);
        }
    } else {
        lemma_without_absent(projects, provider, path);
    }
}

/// A project that was inserted is in the list, whatever the list was.
pub proof fn lemma_insert_contains(projects: Seq<ProjectView>, project: ProjectView)
    ensures
        contains_key(insert(projects, project), project.provider, project.path),
{
    let after = insert(projects, project);
    if !contains_key(projects, project.provider, project.path) {
        assert(same_key(after[projects.len() as int], project.provider, project.path));
    }
}

/// The manifest path of an address is its path without the leading slash, and
/// only that one: a second slash behind it stays. A path without a leading
/// slash is taken as it is.
pub proof fn lemma_manifest_path(rest: Seq<char>)
    ensures
        manifest_path(seq!['/'] + rest) == rest,
        rest.len() == 0 || rest[0] != '/' ==> manifest_path(rest) == rest,
{
    let whole = seq!['/'] + rest;
    assert(whole.subrange(1, whole.len() as int) == rest);
}

/// Adding the same checkout a second time changes nothing and is never told as
/// an addition, whatever build command comes with it.
pub proof fn lemma_add_twice(
    projects: Seq<ProjectView>,
    checkout: CheckoutView,
    first: Option<Seq<char>>,
    second: Option<Seq<char>>,
)
    ensures
        after_add(after_add(projects, checkout, first), checkout, second) == after_add(
            projects,
            checkout,
            first,
        ),
        add_outcome(after_add(projects, checkout, first), checkout) != AddOutcome::Added,
{
    if let Ok(remote) = remote_of(checkout) {
        if let Ok((provider, path)) = resolve(remote) {
            lemma_insert_contains(
                projects,
                ProjectView { provider, path, cmd: command_words(first) },
            );
        }
    }
}

/// After a checkout was added with success, once or twice, the manifest holds
/// exactly one project of its provider and path: taking that key out makes the
/// list shorter by one.
pub proof fn lemma_add_twice_one_entry(
    projects: Seq<ProjectView>,
    checkout: CheckoutView,
    first: Option<Seq<char>>,
    second: Option<Seq<char>>,
)
    requires
        unique_keys(projects),
        remote_of(checkout) is Ok,
        resolve(remote_of(checkout)->Ok_0) is Ok,
    ensures
        ({
            let key = resolve(remote_of(checkout)->Ok_0)->Ok_0;
            let once = after_add(projects, checkout, first);
            let twice = after_add(once, checkout, second);
            &&& contains_key(once, key.0, key.1)
            &&& without(once, key.0, key.1).len() == once.len() - 1
            &&& contains_key(twice, key.0, key.1)
            &&& without(twice, key.0, key.1).len() == twice.len() - 1
        }),
{
    let key = resolve(remote_of(checkout)->Ok_0)->Ok_0;
    let project = ProjectView { provider: key.0, path: key.1, cmd: command_words(first) };
    let once = after_add(projects, checkout, first);
    lemma_add_twice(projects, checkout, first, second);
    lemma_insert_contains(projects, project);
    lemma_insert_unique(projects, project);
    let at = choose|i: int| 0 <= i < once.len() && same_key(#[trigger] once[i], key.0, key.1);
    lemma_without_present(once, key.0, key.1, at);
}

/// Adding keeps the keys unique, whatever is added and however it ends.
pub proof fn lemma_add_unique(
    projects: Seq<ProjectView>,
    checkout: CheckoutView,
    cmd: Option<Seq<char>>,
)
    requires
        unique_keys(projects),
    ensures
        unique_keys(after_add(projects, checkout, cmd)),
{
    if let Ok(remote) = remote_of(checkout) {
        if let Ok((provider, path)) = resolve(remote) {
            lemma_insert_unique(projects, ProjectView { provider, path, cmd: command_words(cmd) });
        }
    }
}

/// An addition that is told as made puts one project at the end and leaves the
/// others where they were; every other outcome leaves the list as it was.
pub proof fn lemma_add_outcome(
    projects: Seq<ProjectView>,
    checkout: CheckoutView,
    cmd: Option<Seq<char>>,
)
    ensures
        add_outcome(projects, checkout) == AddOutcome::Added ==> after_add(
            projects,
            checkout,
            cmd,
        ).drop_last() == projects && after_add(projects, checkout, cmd).len() == projects.len() + 1,
        add_outcome(projects, checkout) != AddOutcome::Added ==> after_add(projects, checkout, cmd)
            == projects,
{
    if add_outcome(projects, checkout) == AddOutcome::Added {
        let after = after_add(projects, checkout, cmd);
        assert(after.drop_last() == projects);
    }
}

/// A scan keeps the keys unique.
pub proof fn lemma_scan_unique(projects: Seq<ProjectView>, entries: Seq<EntryView>)
    requires
        unique_keys(projects),
    ensures
        unique_keys(after_scan(projects, entries)),
    decreases entries.len(),
{
    if entries.len() > 0 {
        lemma_scan_unique(projects, entries.drop_last());
        let before = after_scan(projects, entries.drop_last());
        if !entries.last().is_file {
            lemma_add_unique(before, entries.last().checkout, None);
        }
    }
}

/// Inserting a list of projects one by one keeps the keys unique.
pub proof fn lemma_insert_all_unique(projects: Seq<ProjectView>, items: Seq<ProjectView>)
    requires
        unique_keys(projects),
    ensures
        unique_keys(insert_all(projects, items)),
    decreases items.len(),
{
    if items.len() > 0 {
        lemma_insert_all_unique(projects, items.drop_last());
        lemma_insert_unique(insert_all(projects, items.drop_last()), items.last());
    }
}

/// A list whose keys are unique already is taken over as it is.
pub proof fn lemma_insert_all_exact(items: Seq<ProjectView>)
    requires
        unique_keys(items),
    ensures
        insert_all(Seq::empty(), items) == items,
    decreases items.len(),
{
    if items.len() > 0 {
        let front = items.drop_last();
        assert(unique_keys(front)) by {
            assert forall|i: int, j: int| 0 <= i < j < front.len() implies !same_key(
                #[trigger] front[i],
                (#[trigger] front[j]).provider,
                front[j].path,
            ) by {
                assert(front[i] == items[i]);
                assert(front[j] == items[j]);
            }
        }
        lemma_insert_all_exact(front);
        let last = items.len() - 1;
        assert forall|i: int| 0 <= i < front.len() implies !same_key(
            #[trigger] front[i],
            items.last().provider,
            items.last().path,
        ) by {
            assert(front[i] == items[i]);
            assert(!same_key(items[i], items[last].provider, items[last].path));
        }
        assert(front.push(items.last()) == items);
    } else {
        assert(items == Seq::<ProjectView>::empty());
    }
}

} // verus!
