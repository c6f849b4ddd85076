//! Which providers a repository is used with.

use vstd::prelude::*;

use crate::fs_path::FsPath;
use crate::registry;
use crate::registry::{ProviderHandle, ProviderRegistry};
use crate::text;

verus! {

/// The number of the provider that reads git repositories.
pub const GIT: ProviderHandle = 0;

/// The number of the provider that keeps worktrees with `wt`.
pub const WT: ProviderHandle = 1;

/// The number of the provider of pull requests on GitHub.
pub const GITHUB_REVIEW: ProviderHandle = 2;

/// The number of the provider of issues on GitHub.
pub const GITHUB_ISSUES: ProviderHandle = 3;

/// The number of the provider of agent sessions.
pub const CODING_AGENT: ProviderHandle = 4;

/// The number of the provider of suggested names.
pub const AI_UTILITY: ProviderHandle = 5;

/// The number of the provider of cmux workspaces.
pub const CMUX: ProviderHandle = 6;

/// The number of the provider that reads Jujutsu repositories.
pub const JJ: ProviderHandle = 7;

/// The number of the provider that keeps worktrees with git itself.
pub const GIT_WORKTREE: ProviderHandle = 8;

/// The number of the provider of zellij workspaces.
pub const ZELLIJ: ProviderHandle = 9;

/// The number of the provider of tmux workspaces.
pub const TMUX: ProviderHandle = 10;

/// What was found in and around a repository.
#[derive(Debug)]
pub struct Evidence {
    /// The repository has a `.git`.
    pub git_dir: bool,
    /// The repository has a `.jj`.
    pub jj_dir: bool,
    /// `wt` can be run.
    pub wt: bool,
    /// What git printed as the address of the remote `origin`, if it could be asked.
    pub remote: Option<Vec<u8>>,
    /// `gh` can be run.
    pub gh: bool,
    /// The command of a coding agent that can be run.
    pub agent: Option<String>,
    /// `CMUX_SESSION` is set.
    pub cmux_session: bool,
    /// `cmux` can be run.
    pub cmux: bool,
    /// `ZELLIJ` is set.
    pub zellij_session: bool,
    /// `TMUX` is set.
    pub tmux_session: bool,
}

/// A service that hosts repositories.
#[derive(Debug, Clone, Copy, PartialEq, Eq, Structural)]
pub enum RemoteHost {
    GitHub,
    GitLab,
}

/// The service that an address belongs to.
pub open spec fn host_of(address: Seq<char>) -> Option<RemoteHost> {
    if text::occurs(text::trimmed(address), "github.com"@) {
        Some(RemoteHost::GitHub)
    } else if text::occurs(text::trimmed(address), "gitlab"@) {
        Some(RemoteHost::GitLab)
    } else {
        None
    }
}

/// Whether the remote is on GitHub and can be asked there.
pub open spec fn uses_github(e: Evidence) -> bool {
    e.gh && (e.remote matches Some(printed) && host_of(text::decoded(printed@)) == Some(
        RemoteHost::GitHub,
    ))
}

/// `entries` with one more provider where a condition holds.
pub open spec fn registered_if(
    condition: bool,
    entries: Seq<(Seq<char>, u64)>,
    name: Seq<char>,
    handle: u64,
) -> Seq<(Seq<char>, u64)> {
    if condition {
        registry::registered(entries, name, handle)
    } else {
        entries
    }
}

/// `entries` with the coding agent, where there is one, under the name of its command.
pub open spec fn registered_agent(
    agent: Option<String>,
    entries: Seq<(Seq<char>, u64)>,
    handle: u64,
) -> Seq<(Seq<char>, u64)> {
    match agent {
        Some(name) => registry::registered(entries, name@, handle),
        None => entries,
    }
}

/// The workspace manager of a registry, by name and number.
pub open spec fn manager(r: ProviderRegistry) -> Option<(Seq<char>, u64)> {
    match r.workspace_manager {
        Some((name, handle)) => Some((name@, handle)),
        None => None,
    }
}

/// The workspace manager that there is evidence for: cmux, else zellij, else tmux.
pub open spec fn found_manager(e: Evidence) -> Option<(Seq<char>, u64)> {
    if e.cmux_session || e.cmux {
        Some(("cmux"@, CMUX))
    } else if e.zellij_session {
        Some(("zellij"@, ZELLIJ))
    } else if e.tmux_session {
        Some(("tmux"@, TMUX))
    } else {
        None
    }
}

/// Whether what was found turns the registry `a` into `b`.
pub open spec fn found(a: ProviderRegistry, e: Evidence, b: ProviderRegistry) -> bool {
    &&& registry::provider_entries(b.vcs) == registered_if(
        e.jj_dir,
        registered_if(e.git_dir, registry::provider_entries(a.vcs), "git"@, GIT),
        "jj"@,
        JJ,
    )
    &&& registry::provider_entries(b.checkout_managers) == registered_if(
        e.git_dir,
        registry::provider_entries(a.checkout_managers),
        "git"@,
        if e.wt {
            WT
        } else {
            GIT_WORKTREE
        },
    )
    &&& registry::provider_entries(b.code_review) == registered_if(
        uses_github(e),
        registry::provider_entries(a.code_review),
        "github"@,
        GITHUB_REVIEW,
    )
    &&& registry::provider_entries(b.issue_trackers) == registered_if(
        uses_github(e),
        registry::provider_entries(a.issue_trackers),
        "github"@,
        GITHUB_ISSUES,
    )
    &&& registry::provider_entries(b.coding_agents) == registered_agent(
        e.agent,
        registry::provider_entries(a.coding_agents),
        CODING_AGENT,
    )
    &&& registry::provider_entries(b.ai_utilities) == registered_agent(
        e.agent,
        registry::provider_entries(a.ai_utilities),
        AI_UTILITY,
    )
    &&& manager(b) == match found_manager(e) {
        Some(m) => Some(m),
        None => manager(a),
    }
}

/// The providers for a repository, from what was found in and around it.
///
/// 1. Version control: `.git` or `.jj`.
/// 2. Remote host: GitHub, by the address of the remote, where `gh` can be run.
/// 3. Checkout manager: `wt`, or git's own worktrees where `wt` cannot be run.
/// 4. Coding agent: where its command can be run.
/// 5. Utility for names: the same.
/// 6. Workspace manager: cmux, zellij or tmux.
pub fn detect_providers(_repo_root: &FsPath, e: &Evidence) -> (r: ProviderRegistry)
    ensures
        exists|a: ProviderRegistry| #[trigger] a.is_empty() && found(a, *e, r),
{
    let mut r = ProviderRegistry::new();
    let ghost a = r;
    register_found(&mut r, e);
    assert(a.is_empty() && found(a, *e, r));
    r
}

/// The service that an address, as git prints it, belongs to.
pub fn remote_host(address: &str) -> (h: Option<RemoteHost>)
    ensures
        h == host_of(address@),
{
    let url = text::trim(address);
    if text::contains(url.as_str(), "github.com") {
        Some(RemoteHost::GitHub)
    } else if text::contains(url.as_str(), "gitlab") {
        Some(RemoteHost::GitLab)
    } else {
        None
    }
}

/// Registers the providers that there is evidence for.
pub fn register_found(r: &mut ProviderRegistry, e: &Evidence)
    ensures
        found(*old(r), *e, *final(r)),
{
    if e.git_dir {
        registry::register(&mut r.vcs, "git", GIT);
        if e.wt {
            registry::register(&mut r.checkout_managers, "git", WT);
        } else {
            registry::register(&mut r.checkout_managers, "git", GIT_WORKTREE);
        }
    }
    if e.jj_dir {
        registry::register(&mut r.vcs, "jj", JJ);
    }
    let on_github: bool = match &e.remote {
        Some(printed) => {
            let address = text::decode(printed.as_slice());
            match remote_host(address.as_str()) {
                Some(RemoteHost::GitHub) => true,
                _ => false,
            }
        },
        None => false,
    };
    if on_github && e.gh {
        registry::register(&mut r.code_review, "github", GITHUB_REVIEW);
        registry::register(&mut r.issue_trackers, "github", GITHUB_ISSUES);
    }
    if let Some(name) = &e.agent {
        registry::register(&mut r.coding_agents, name.as_str(), CODING_AGENT);
        registry::register(&mut r.ai_utilities, name.as_str(), AI_UTILITY);
    }
    if e.cmux_session || e.cmux {
        r.workspace_manager = Some(("cmux".to_owned(), CMUX));
    } else if e.zellij_session {
        r.workspace_manager = Some(("zellij".to_owned(), ZELLIJ));
    } else if e.tmux_session {
        r.workspace_manager = Some(("tmux".to_owned(), TMUX));
    }
}

/// Without evidence nothing is registered.
pub proof fn nothing_found_registers_nothing(a: ProviderRegistry, e: Evidence, b: ProviderRegistry)
    requires
        a.is_empty(),
        found(a, e, b),
        !e.git_dir && !e.jj_dir && e.agent is None,
        found_manager(e) is None,
        !e.gh || e.remote is None,
    ensures
        b.is_empty(),
{
}

/// A repository has version control exactly where it has a `.git` or a `.jj`, and a checkout
/// manager exactly where it has a `.git`: `wt` if it can be run, else git's own worktrees.
pub proof fn version_control_is_detected(a: ProviderRegistry, e: Evidence, b: ProviderRegistry)
    requires
        a.is_empty(),
        found(a, e, b),
    ensures
        registry::provider_entries(b.vcs).len() > 0 <==> e.git_dir || e.jj_dir,
        registry::provider_entries(b.checkout_managers).len() > 0 <==> e.git_dir,
        e.git_dir ==> registry::holds(registry::provider_entries(b.vcs), "git"@, GIT),
        e.jj_dir ==> registry::holds(registry::provider_entries(b.vcs), "jj"@, JJ),
        e.git_dir ==> registry::holds(
            registry::provider_entries(b.checkout_managers),
            "git"@,
            if e.wt {
                WT
            } else {
                GIT_WORKTREE
            },
        ),
{
    let none = Seq::<(Seq<char>, u64)>::empty();
    assert(registry::provider_entries(a.vcs) =~= none);
    assert(registry::provider_entries(a.checkout_managers) =~= none);
    let git = registered_if(e.git_dir, none, "git"@, GIT);
    assert("git"@ != "jj"@) by {
        reveal_strlit("git");
        reveal_strlit("jj");
        assert("git"@.len() != "jj"@.len());
    }
    registry::registered_providers_are_found(none, "git"@, GIT, "jj"@);
    registry::registered_providers_are_found(git, "jj"@, JJ, "git"@);
    registry::registered_providers_are_found(none, "git"@, WT, "jj"@);
    registry::registered_providers_are_found(none, "git"@, GIT_WORKTREE, "jj"@);
}

/// A remote on GitHub brings pull requests and issues where `gh` can be run, and a coding agent
/// that can be run brings sessions and names.
pub proof fn services_are_detected(a: ProviderRegistry, e: Evidence, b: ProviderRegistry)
    requires
        a.is_empty(),
        found(a, e, b),
    ensures
        uses_github(e) <==> registry::provider_entries(b.code_review).len() > 0,
        uses_github(e) ==> registry::holds(
            registry::provider_entries(b.code_review),
            "github"@,
            GITHUB_REVIEW,
        ),
        uses_github(e) <==> registry::provider_entries(b.issue_trackers).len() > 0,
        uses_github(e) ==> registry::holds(
            registry::provider_entries(b.issue_trackers),
            "github"@,
            GITHUB_ISSUES,
        ),
        e.agent is Some <==> registry::provider_entries(b.coding_agents).len() > 0,
        e.agent matches Some(name) ==> registry::holds(
            registry::provider_entries(b.coding_agents),
            name@,
            CODING_AGENT,
        ),
        e.agent is Some <==> registry::provider_entries(b.ai_utilities).len() > 0,
        e.agent matches Some(name) ==> registry::holds(
            registry::provider_entries(b.ai_utilities),
            name@,
            AI_UTILITY,
        ),
{
    let none = Seq::<(Seq<char>, u64)>::empty();
    assert(registry::provider_entries(a.code_review) =~= none);
    assert(registry::provider_entries(a.issue_trackers) =~= none);
    assert(registry::provider_entries(a.coding_agents) =~= none);
    assert(registry::provider_entries(a.ai_utilities) =~= none);
    registry::registered_providers_are_found(none, "github"@, GITHUB_REVIEW, "github"@);
    registry::registered_providers_are_found(none, "github"@, GITHUB_ISSUES, "github"@);
    if let Some(name) = e.agent {
        registry::registered_providers_are_found(none, name@, CODING_AGENT, name@);
        registry::registered_providers_are_found(none, name@, AI_UTILITY, name@);
    }
}

/// There is a workspace manager exactly where `CMUX_SESSION`, `ZELLIJ` or `TMUX` is set or `cmux`
/// can be run.
pub proof fn workspace_managers_are_detected(a: ProviderRegistry, e: Evidence, b: ProviderRegistry)
    requires
        a.is_empty(),
        found(a, e, b),
    ensures
        b.workspace_manager is Some <==> e.cmux_session || e.cmux || e.zellij_session
            || e.tmux_session,
        manager(b) == found_manager(e),
{
}

/// An address belongs to GitHub where `github.com` occurs in it, else to GitLab where `gitlab`
/// does, else to neither; white space around it makes no difference.
pub proof fn addresses_tell_the_host(address: Seq<char>)
    ensures
        text::occurs(text::trimmed(address), "github.com"@) ==> host_of(address) == Some(
            RemoteHost::GitHub,
        ),
        !text::occurs(text::trimmed(address), "github.com"@) && text::occurs(
            text::trimmed(address),
            "gitlab"@,
        ) ==> host_of(address) == Some(RemoteHost::GitLab),
        !text::occurs(text::trimmed(address), "github.com"@) && !text::occurs(
            text::trimmed(address),
            "gitlab"@,
        ) ==> host_of(address) is None,
{
}

/// GitHub is used exactly where `gh` can be run and `github.com` occurs in the address that git
/// printed.
pub proof fn github_needs_the_tool_and_the_address(e: Evidence)
    ensures
        uses_github(e) <==> e.gh && (e.remote matches Some(printed) && text::occurs(
            text::trimmed(text::decoded(printed@)),
            "github.com"@,
        )),
{
}

/// What was registered before stays: under every other name than those found, the providers are
/// as they were.
pub proof fn other_providers_are_kept(
    a: ProviderRegistry,
    e: Evidence,
    b: ProviderRegistry,
    name: Seq<char>,
    handle: u64,
)
    requires
        found(a, e, b),
    ensures
        name != "git"@ && name != "jj"@ && registry::holds(
            registry::provider_entries(a.vcs),
            name,
            handle,
        ) ==> registry::holds(registry::provider_entries(b.vcs), name, handle),
        name != "git"@ && registry::holds(
            registry::provider_entries(a.checkout_managers),
            name,
            handle,
        ) ==> registry::holds(registry::provider_entries(b.checkout_managers), name, handle),
        name != "github"@ && registry::holds(
            registry::provider_entries(a.code_review),
            name,
            handle,
        ) ==> registry::holds(registry::provider_entries(b.code_review), name, handle),
        name != "github"@ && registry::holds(
            registry::provider_entries(a.issue_trackers),
            name,
            handle,
        ) ==> registry::holds(registry::provider_entries(b.issue_trackers), name, handle),
        (e.agent matches Some(own) ==> own@ != name) && registry::holds(
            registry::provider_entries(a.coding_agents),
            name,
            handle,
        ) ==> registry::holds(registry::provider_entries(b.coding_agents), name, handle),
        (e.agent matches Some(own) ==> own@ != name) && registry::holds(
            registry::provider_entries(a.ai_utilities),
            name,
            handle,
        ) ==> registry::holds(registry::provider_entries(b.ai_utilities), name, handle),
        !e.cmux_session && !e.cmux && !e.zellij_session && !e.tmux_session ==> manager(b)
            == manager(a),
{
    let checkout = if e.wt {
        WT
    } else {
        GIT_WORKTREE
    };
    lemma_kept(registry::provider_entries(a.vcs), "git"@, GIT, name);
    lemma_kept(
        registered_if(e.git_dir, registry::provider_entries(a.vcs), "git"@, GIT),
        "jj"@,
        JJ,
        name,
    );
    lemma_kept(registry::provider_entries(a.checkout_managers), "git"@, checkout, name);
    lemma_kept(registry::provider_entries(a.code_review), "github"@, GITHUB_REVIEW, name);
    lemma_kept(registry::provider_entries(a.issue_trackers), "github"@, GITHUB_ISSUES, name);
    if let Some(own) = e.agent {
        lemma_kept(registry::provider_entries(a.coding_agents), own@, CODING_AGENT, name);
        lemma_kept(registry::provider_entries(a.ai_utilities), own@, AI_UTILITY, name);
    }
}

proof fn lemma_kept(
    entries: Seq<(Seq<char>, u64)>,
    name: Seq<char>,
    handle: u64,
    other: Seq<char>,
)
    ensures
        forall|h: u64|
            other != name && #[trigger] registry::holds(entries, other, h) ==> registry::holds(
                registry::registered(entries, name, handle),
                other,
                h,
            ),
{
    registry::registered_providers_are_found(entries, name, handle, other);
    registry::positions_are_bounded(entries, name);
}

/// The workspace manager is cmux where it can be run or a session of it is open, else zellij where
/// a session of it is open, else tmux where one is, each by its name and its number.
pub proof fn the_first_manager_is_taken(a: ProviderRegistry, e: Evidence, b: ProviderRegistry)
    requires
        found(a, e, b),
    ensures
        e.cmux_session || e.cmux ==> (b.workspace_manager matches Some((name, handle)) && name@
            == "cmux"@ && handle == CMUX),
        !e.cmux_session && !e.cmux && e.zellij_session ==> (b.workspace_manager matches Some(
            (name, handle),
        ) && name@ == "zellij"@ && handle == ZELLIJ),
        !e.cmux_session && !e.cmux && !e.zellij_session && e.tmux_session ==> (
        b.workspace_manager matches Some((name, handle)) && name@ == "tmux"@ && handle == TMUX),
        !e.cmux_session && !e.cmux && !e.zellij_session && !e.tmux_session ==> (
        b.workspace_manager is Some <==> a.workspace_manager is Some),
{
}

/// In an empty registry no kind holds a provider, and there is no workspace manager.
pub proof fn empty_registries_hold_nothing(r: ProviderRegistry)
    ensures
        r.is_empty() <==> registry::provider_entries(r.vcs).len() == 0
            && registry::provider_entries(r.checkout_managers).len() == 0
            && registry::provider_entries(r.code_review).len() == 0
            && registry::provider_entries(r.issue_trackers).len() == 0
            && registry::provider_entries(r.coding_agents).len() == 0
            && registry::provider_entries(r.ai_utilities).len() == 0
            && r.workspace_manager is None,
{
}

} // verus!
