//! Providers that the configuration puts in place of detected ones.

use vstd::prelude::*;

use indexmap::IndexMap;

use crate::discovery;
use crate::discovery::Evidence;
use crate::fs_path::FsPath;
use crate::registry;
use crate::registry::{ProviderHandle, ProviderRegistry};

verus! {

/// The providers that the configuration asks for, by kind and by name.
#[derive(Debug)]
pub struct Overrides {
    pub vcs: Vec<(String, ProviderHandle)>,
    pub checkout_managers: Vec<(String, ProviderHandle)>,
    pub code_review: Vec<(String, ProviderHandle)>,
    pub issue_trackers: Vec<(String, ProviderHandle)>,
    pub coding_agents: Vec<(String, ProviderHandle)>,
    pub ai_utilities: Vec<(String, ProviderHandle)>,
    pub workspace_manager: Option<(String, ProviderHandle)>,
}

/// The providers `entries` after those of `over` are registered, one after the other.
pub open spec fn overridden(entries: Seq<(Seq<char>, u64)>, over: Seq<(String, u64)>) -> Seq<
    (Seq<char>, u64),
>
    decreases over.len(),
{
    if over.len() == 0 {
        entries
    } else {
        registry::registered(
            overridden(entries, over.drop_last()),
            over.last().0@,
            over.last().1,
        )
    }
}

/// Whether the overrides turn the registry `a` into `b`.
pub open spec fn applied(a: ProviderRegistry, o: Overrides, b: ProviderRegistry) -> bool {
    &&& registry::provider_entries(b.vcs) == overridden(registry::provider_entries(a.vcs), o.vcs@)
    &&& registry::provider_entries(b.checkout_managers) == overridden(
        registry::provider_entries(a.checkout_managers),
        o.checkout_managers@,
    )
    &&& registry::provider_entries(b.code_review) == overridden(
        registry::provider_entries(a.code_review),
        o.code_review@,
    )
    &&& registry::provider_entries(b.issue_trackers) == overridden(
        registry::provider_entries(a.issue_trackers),
        o.issue_trackers@,
    )
    &&& registry::provider_entries(b.coding_agents) == overridden(
        registry::provider_entries(a.coding_agents),
        o.coding_agents@,
    )
    &&& registry::provider_entries(b.ai_utilities) == overridden(
        registry::provider_entries(a.ai_utilities),
        o.ai_utilities@,
    )
    &&& discovery::manager(b) == match o.workspace_manager {
        Some((name, handle)) => Some((name@, handle)),
        None => discovery::manager(a),
    }
}

/// Registers the overrides of one kind.
fn override_kind(m: &mut IndexMap<String, ProviderHandle>, over: &Vec<(String, ProviderHandle)>)
    ensures
        registry::provider_entries(*final(m)) == overridden(
            registry::provider_entries(*old(m)),
            over@,
        ),
{
    let ghost start = registry::provider_entries(*m);
    let mut i: usize = 0;
    assert(over@.take(0) =~= Seq::<(String, u64)>::empty());
    while i < over.len()
        invariant
            i <= over@.len(),
            registry::provider_entries(*m) == overridden(start, over@.take(i as int)),
        decreases over@.len() - i,
    {
        assert(over@.take(i + 1).drop_last() =~= over@.take(i as int));
        registry::register(m, over[i].0.as_str(), over[i].1);
        i = i + 1;
    }
    assert(over@.take(i as int) =~= over@);
}

/// Applies the overrides on top of the providers that there are.
pub fn apply_overrides(r: &mut ProviderRegistry, o: &Overrides)
    ensures
        applied(*old(r), *o, *final(r)),
{
    override_kind(&mut r.vcs, &o.vcs);
    override_kind(&mut r.checkout_managers, &o.checkout_managers);
    override_kind(&mut r.code_review, &o.code_review);
    override_kind(&mut r.issue_trackers, &o.issue_trackers);
    override_kind(&mut r.coding_agents, &o.coding_agents);
    override_kind(&mut r.ai_utilities, &o.ai_utilities);
    if let Some((name, handle)) = &o.workspace_manager {
        r.workspace_manager = Some((name.clone(), *handle));
    }
}

/// The providers for a repository: those detected, with the overrides on top.
pub fn configured_providers(repo_root: &FsPath, e: &Evidence, o: &Overrides) -> (r:
    ProviderRegistry)
    ensures
        exists|a: ProviderRegistry, b: ProviderRegistry|
            a.is_empty() && #[trigger] discovery::found(a, *e, b) && applied(b, *o, r),
{
    let mut r = discovery::detect_providers(repo_root, e);
    let ghost b = r;
    apply_overrides(&mut r, o);
    proof {
        let a = choose|a: ProviderRegistry| #[trigger] a.is_empty() && discovery::found(a, *e, b);
        assert(a.is_empty() && discovery::found(a, *e, b) && applied(b, *o, r));
    }
    r
}

/// An override wins over what was detected under its name, and over overrides of that name
/// before it.
pub proof fn overrides_win(entries: Seq<(Seq<char>, u64)>, over: Seq<(String, u64)>, i: int)
    requires
        0 <= i < over.len(),
        forall|j: int| i < j < over.len() ==> (#[trigger] over[j]).0@ != over[i].0@,
    ensures
        registry::holds(overridden(entries, over), over[i].0@, over[i].1),
    decreases over.len(),
{
    let rest = over.drop_last();
    let before = overridden(entries, rest);
    registry::positions_are_bounded(before, over.last().0@);
    registry::registered_providers_are_found(before, over.last().0@, over.last().1, over[i].0@);
    if i < over.len() - 1 {
        assert forall|j: int| i < j < rest.len() implies (#[trigger] rest[j]).0@ != rest[i].0@ by {
            assert(rest[j] == over[j]);
        }
        overrides_win(entries, rest, i);
        assert(over[over.len() - 1].0@ != over[i].0@);
    }
}

/// A name without an override keeps its provider, or stays without one.
pub proof fn other_providers_stay(
    entries: Seq<(Seq<char>, u64)>,
    over: Seq<(String, u64)>,
    name: Seq<char>,
)
    requires
        forall|j: int| 0 <= j < over.len() ==> (#[trigger] over[j]).0@ != name,
    ensures
        ({
            let after = overridden(entries, over);
            let i = registry::position(entries, name);
            let k = registry::position(after, name);
            &&& i < entries.len() ==> k == i && k < after.len() && after[k] == entries[i]
            &&& i == entries.len() ==> k == after.len()
        }),
    decreases over.len(),
{
    if over.len() > 0 {
        let rest = over.drop_last();
        assert forall|j: int| 0 <= j < rest.len() implies (#[trigger] rest[j]).0@ != name by {
            assert(rest[j] == over[j]);
        }
        other_providers_stay(entries, rest, name);
        registry::positions_are_bounded(entries, name);
        registry::positions_are_bounded(overridden(entries, rest), over.last().0@);
        assert(over[over.len() - 1].0@ != name);
        registry::registered_providers_are_found(
            overridden(entries, rest),
            over.last().0@,
            over.last().1,
            name,
        );
    }
}

/// Each kind of provider has its own overrides, which win there; a workspace manager that is asked
/// for is the one in use, and without one the other stays.
pub proof fn overrides_win_in_their_kind(
    a: ProviderRegistry,
    o: Overrides,
    b: ProviderRegistry,
    i: int,
)
    requires
        applied(a, o, b),
    ensures
        is_last_of_its_name(o.vcs@, i) ==> registry::holds(
            registry::provider_entries(b.vcs),
            o.vcs@[i].0@,
            o.vcs@[i].1,
        ),
        is_last_of_its_name(o.checkout_managers@, i) ==> registry::holds(
            registry::provider_entries(b.checkout_managers),
            o.checkout_managers@[i].0@,
            o.checkout_managers@[i].1,
        ),
        is_last_of_its_name(o.code_review@, i) ==> registry::holds(
            registry::provider_entries(b.code_review),
            o.code_review@[i].0@,
            o.code_review@[i].1,
        ),
        is_last_of_its_name(o.issue_trackers@, i) ==> registry::holds(
            registry::provider_entries(b.issue_trackers),
            o.issue_trackers@[i].0@,
            o.issue_trackers@[i].1,
        ),
        is_last_of_its_name(o.coding_agents@, i) ==> registry::holds(
            registry::provider_entries(b.coding_agents),
            o.coding_agents@[i].0@,
            o.coding_agents@[i].1,
        ),
        is_last_of_its_name(o.ai_utilities@, i) ==> registry::holds(
            registry::provider_entries(b.ai_utilities),
            o.ai_utilities@[i].0@,
            o.ai_utilities@[i].1,
        ),
        o.workspace_manager matches Some((name, handle)) ==> (b.workspace_manager matches Some(
            (n, h),
        ) && n@ == name@ && h == handle),
        o.workspace_manager is None ==> discovery::manager(b) == discovery::manager(a),
{
    lemma_last_wins(registry::provider_entries(a.vcs), o.vcs@, i);
    lemma_last_wins(registry::provider_entries(a.checkout_managers), o.checkout_managers@, i);
    lemma_last_wins(registry::provider_entries(a.code_review), o.code_review@, i);
    lemma_last_wins(registry::provider_entries(a.issue_trackers), o.issue_trackers@, i);
    lemma_last_wins(registry::provider_entries(a.coding_agents), o.coding_agents@, i);
    lemma_last_wins(registry::provider_entries(a.ai_utilities), o.ai_utilities@, i);
}

/// Whether no override behind that of the number bears its name.
pub open spec fn is_last_of_its_name(over: Seq<(String, u64)>, i: int) -> bool {
    &&& 0 <= i < over.len()
    &&& forall|j: int| i < j < over.len() ==> (#[trigger] over[j]).0@ != over[i].0@
}

proof fn lemma_last_wins(entries: Seq<(Seq<char>, u64)>, over: Seq<(String, u64)>, i: int)
    ensures
        is_last_of_its_name(over, i) ==> registry::holds(
            overridden(entries, over),
            over[i].0@,
            over[i].1,
        ),
{
    if is_last_of_its_name(over, i) {
        overrides_win(entries, over, i);
    }
}

/// Overrides of no kind change nothing.
pub proof fn without_overrides_nothing_changes(a: ProviderRegistry, o: Overrides, b: ProviderRegistry)
    requires
        applied(a, o, b),
    ensures
        o.vcs@.len() == 0 ==> registry::provider_entries(b.vcs) == registry::provider_entries(
            a.vcs,
        ),
        o.checkout_managers@.len() == 0 ==> registry::provider_entries(b.checkout_managers)
            == registry::provider_entries(a.checkout_managers),
        o.code_review@.len() == 0 ==> registry::provider_entries(b.code_review)
            == registry::provider_entries(a.code_review),
        o.issue_trackers@.len() == 0 ==> registry::provider_entries(b.issue_trackers)
            == registry::provider_entries(a.issue_trackers),
        o.coding_agents@.len() == 0 ==> registry::provider_entries(b.coding_agents)
            == registry::provider_entries(a.coding_agents),
        o.ai_utilities@.len() == 0 ==> registry::provider_entries(b.ai_utilities)
            == registry::provider_entries(a.ai_utilities),
{
}

} // verus!
