//! The providers that are in use, by kind and by name.

use vstd::prelude::*;

use indexmap::IndexMap;

verus! {

/// The number under which a provider is kept outside.
pub type ProviderHandle = u64;

/// `indexmap::IndexMap`: a map that keeps the order in which its keys were inserted.
#[verifier::external_type_specification]
#[verifier::external_body]
#[verifier::reject_recursive_types(K)]
#[verifier::reject_recursive_types(V)]
#[verifier::reject_recursive_types(S)]
pub struct ExIndexMap<K, V, S>(indexmap::IndexMap<K, V, S>);

/// The providers that a map holds, by name, in the order of the map.
pub uninterp spec fn provider_entries(m: IndexMap<String, u64>) -> Seq<(Seq<char>, u64)>;

/// `IndexMap::new`: a map that holds nothing.
#[verifier::external_body]
fn no_providers() -> (m: IndexMap<String, ProviderHandle>)
    ensures
        provider_entries(m) == Seq::<(Seq<char>, u64)>::empty(),
{
    IndexMap::new()
}

/// The position of a name among the providers, or how many there are.
pub open spec fn position(entries: Seq<(Seq<char>, u64)>, name: Seq<char>) -> int
    decreases entries.len(),
{
    if entries.len() == 0 || entries[0].0 == name {
        0
    } else {
        1 + position(entries.skip(1), name)
    }
}

/// Whether a provider is found under a name.
pub open spec fn holds(entries: Seq<(Seq<char>, u64)>, name: Seq<char>, handle: u64) -> bool {
    let i = position(entries, name);
    i < entries.len() && entries[i] == (name, handle)
}

/// The providers after one more is registered: under a name that is taken it stands in the place
/// of the other, else behind them all.
pub open spec fn registered(
    entries: Seq<(Seq<char>, u64)>,
    name: Seq<char>,
    handle: u64,
) -> Seq<(Seq<char>, u64)> {
    let i = position(entries, name);
    if i < entries.len() {
        entries.update(i, (name, handle))
    } else {
        entries.push((name, handle))
    }
}

/// `IndexMap::insert`: a key that is there keeps its place and gets the new value, and the old
/// value is returned; a new key is put behind all others.
#[verifier::external_body]
fn insert_provider(
    m: &mut IndexMap<String, ProviderHandle>,
    name: String,
    handle: ProviderHandle,
) -> (previous: Option<ProviderHandle>)
    ensures
        provider_entries(*final(m)) == registered(provider_entries(*old(m)), name@, handle),
        previous == (if position(provider_entries(*old(m)), name@) < provider_entries(
            *old(m),
        ).len() {
            Some(
                provider_entries(*old(m))[position(provider_entries(*old(m)), name@)].1,
            )
        } else {
            None
        }),
{
    m.insert(name, handle)
}

/// Registers a provider, in place of the one of that name.
pub fn register(m: &mut IndexMap<String, ProviderHandle>, name: &str, handle: ProviderHandle)
    ensures
        provider_entries(*final(m)) == registered(provider_entries(*old(m)), name@, handle),
{
    let _previous = insert_provider(m, name.to_owned(), handle);
}

/// A provider is found under the name that it was registered with, and every other name keeps
/// its provider.
pub proof fn registered_providers_are_found(
    entries: Seq<(Seq<char>, u64)>,
    name: Seq<char>,
    handle: u64,
    other: Seq<char>,
)
    ensures
        ({
            let after = registered(entries, name, handle);
            &&& 0 <= position(after, name) < after.len()
            &&& after[position(after, name)] == (name, handle)
            &&& other != name && position(entries, other) < entries.len() ==> {
                &&& position(after, other) == position(entries, other)
                &&& after[position(after, other)] == entries[position(entries, other)]
            }
            &&& other != name && position(entries, other) == entries.len() ==> position(
                after,
                other,
            ) == after.len()
        }),
    decreases entries.len(),
{
    let after = registered(entries, name, handle);
    if entries.len() == 0 {
        assert(after =~= seq![(name, handle)]);
        assert(after.skip(1) =~= entries);
    } else if entries[0].0 == name {
        assert(after =~= entries.update(0, (name, handle)));
        assert(after.skip(1) =~= entries.skip(1));
        positions_are_bounded(entries.skip(1), other);
    } else {
        let rest = entries.skip(1);
        positions_are_bounded(rest, name);
        positions_are_bounded(rest, other);
        registered_providers_are_found(rest, name, handle, other);
        assert(after.skip(1) =~= registered(rest, name, handle));
        assert(after[0] == entries[0]);
        positions_are_bounded(after.skip(1), name);
        assert(after[position(after, name)] == after.skip(1)[position(after.skip(1), name)]);
        if other != name && entries[0].0 != other && position(entries, other) < entries.len() {
            assert(after[position(after, other)] == after.skip(1)[position(
                after.skip(1),
                other,
            )]);
            assert(entries[position(entries, other)] == rest[position(rest, other)]);
        }
    }
}

/// The position of a name lies among the providers or right behind them.
pub proof fn positions_are_bounded(entries: Seq<(Seq<char>, u64)>, name: Seq<char>)
    ensures
        0 <= position(entries, name) <= entries.len(),
    decreases entries.len(),
{
    if entries.len() > 0 {
        positions_are_bounded(entries.skip(1), name);
    }
}

/// Named, ordered collection of the providers that are in use. The names serve as keys of the
/// configuration and as labels.
pub struct ProviderRegistry {
    pub vcs: IndexMap<String, ProviderHandle>,
    pub checkout_managers: IndexMap<String, ProviderHandle>,
    pub code_review: IndexMap<String, ProviderHandle>,
    pub issue_trackers: IndexMap<String, ProviderHandle>,
    pub coding_agents: IndexMap<String, ProviderHandle>,
    pub ai_utilities: IndexMap<String, ProviderHandle>,
    pub workspace_manager: Option<(String, ProviderHandle)>,
}

impl ProviderRegistry {
    /// Whether no provider is in use.
    pub open spec fn is_empty(self) -> bool {
        &&& provider_entries(self.vcs).len() == 0
        &&& provider_entries(self.checkout_managers).len() == 0
        &&& provider_entries(self.code_review).len() == 0
        &&& provider_entries(self.issue_trackers).len() == 0
        &&& provider_entries(self.coding_agents).len() == 0
        &&& provider_entries(self.ai_utilities).len() == 0
        &&& self.workspace_manager is None
    }

    /// A registry without providers.
    pub fn new() -> (r: Self)
        ensures
            r.is_empty(),
    {
        ProviderRegistry {
            vcs: no_providers(),
            checkout_managers: no_providers(),
            code_review: no_providers(),
            issue_trackers: no_providers(),
            coding_agents: no_providers(),
            ai_utilities: no_providers(),
            workspace_manager: None,
        }
    }
}

impl Default for ProviderRegistry {
    fn default() -> (r: Self)
        ensures
            r.is_empty(),
    {
        Self::new()
    }
}

/// The position of a name is that of the first provider of that name, or right behind them all.
pub proof fn positions_are_those_of_the_first(entries: Seq<(Seq<char>, u64)>, name: Seq<char>)
    ensures
        0 <= position(entries, name) <= entries.len(),
        position(entries, name) < entries.len() ==> entries[position(entries, name)].0 == name,
        forall|i: int|
            0 <= i < position(entries, name) ==> (#[trigger] entries[i]).0 != name,
    decreases entries.len(),
{
    if entries.len() > 0 && entries[0].0 != name {
        positions_are_those_of_the_first(entries.skip(1), name);
        assert forall|i: int| 0 <= i < position(entries, name) implies (
        #[trigger] entries[i]).0 != name by {
            if i > 0 {
                assert(entries.skip(1)[i - 1] == entries[i]);
            }
        }
    }
}

/// Registering under a name that is taken changes that provider alone; under a new name it puts
/// one provider behind the others and changes none of them.
pub proof fn registering_changes_one_provider(
    entries: Seq<(Seq<char>, u64)>,
    name: Seq<char>,
    handle: u64,
)
    ensures
        ({
            let after = registered(entries, name, handle);
            let taken = exists|i: int| 0 <= i < entries.len() && (#[trigger] entries[i]).0 == name;
            &&& taken ==> after.len() == entries.len()
            &&& !taken ==> after.len() == entries.len() + 1 && after.last() == (name, handle)
            &&& forall|i: int|
                0 <= i < entries.len() && (#[trigger] entries[i]).0 != name ==> after[i]
                    == entries[i]
            &&& forall|i: int|
                0 <= i < entries.len() ==> (#[trigger] after[i]).0 == entries[i].0
        }),
{
    positions_are_those_of_the_first(entries, name);
    let taken = exists|i: int| 0 <= i < entries.len() && (#[trigger] entries[i]).0 == name;
    if taken {
        let i = choose|i: int| 0 <= i < entries.len() && (#[trigger] entries[i]).0 == name;
        assert(position(entries, name) <= i);
    }
}

/// A provider is found under a name exactly where the first provider of that name has the number.
pub proof fn providers_are_found_by_name(
    entries: Seq<(Seq<char>, u64)>,
    name: Seq<char>,
    handle: u64,
)
    requires
        holds(entries, name, handle),
    ensures
        exists|i: int| 0 <= i < entries.len() && #[trigger] entries[i] == (name, handle),
{
    positions_are_those_of_the_first(entries, name);
    assert(entries[position(entries, name)] == (name, handle));
}

} // verus!
