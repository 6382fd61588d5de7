//! The capability registry: a map from (namespace, name) to an address, in
//! which a key, once registered, keeps its address for good.

use vstd::prelude::*;

verus! {

/// A capability key: namespace and name.
pub type CapabilityKey = (Seq<char>, Seq<char>);

/// One registered capability.
pub struct Capability {
    pub namespace: String,
    pub name: String,
    pub pointer: usize,
}

/// The address that the entries give to a key: that of the first entry with
/// this key.
pub open spec fn lookup(entries: Seq<Capability>, key: CapabilityKey) -> Option<usize>
    decreases entries.len(),
{
    if entries.len() == 0 {
        None
    } else {
        match lookup(entries.drop_last(), key) {
            Some(pointer) => Some(pointer),
            None => if entries.last().namespace@ == key.0 && entries.last().name@ == key.1 {
                Some(entries.last().pointer)
            } else {
                None
            },
        }
    }
}

/// What a query for `key` returns on a registry that holds `map`.
pub open spec fn query_spec(map: Map<CapabilityKey, usize>, key: CapabilityKey) -> Option<usize> {
    if map.contains_key(key) {
        Some(map[key])
    } else {
        None
    }
}

/// What registering `pointer` under `key` does to a registry that holds
/// `map`: the map afterwards, and whether the key was added.
pub open spec fn register_spec(map: Map<CapabilityKey, usize>, key: CapabilityKey, pointer: usize) -> (
    Map<CapabilityKey, usize>,
    bool,
) {
    if map.contains_key(key) {
        (map, false)
    } else {
        (map.insert(key, pointer), true)
    }
}

proof fn lookup_keeps_first(entries: Seq<Capability>, key: CapabilityKey, k: int)
    requires
        0 <= k <= entries.len(),
        lookup(entries.subrange(0, k), key) is Some,
    ensures
        lookup(entries, key) == lookup(entries.subrange(0, k), key),
    decreases entries.len() - k,
{
    if k < entries.len() {
        assert(entries.subrange(0, k + 1).drop_last() =~= entries.subrange(0, k));
        lookup_keeps_first(entries, key, k + 1);
    } else {
        assert(entries.subrange(0, k) =~= entries);
    }
}

/// The state shared by all modules: the capabilities registered so far.
pub struct LoaderState {
    registered_funcs: Vec<Capability>,
}

impl View for LoaderState {
    type V = Map<CapabilityKey, usize>;

    closed spec fn view(&self) -> Map<CapabilityKey, usize> {
        Map::new(
            |key: CapabilityKey| lookup(self.registered_funcs@, key) is Some,
            |key: CapabilityKey| lookup(self.registered_funcs@, key)->0,
        )
    }
}

impl LoaderState {
    /// A registry that holds nothing.
    pub fn new() -> (state: Self)
        ensures
            state@ == Map::<CapabilityKey, usize>::empty(),
    {
        let state = LoaderState { registered_funcs: Vec::new() };
        proof {
            assert(state@ =~= Map::<CapabilityKey, usize>::empty());
        }
        state
    }

    /// The address registered under the key, if there is one.
    pub fn query(&self, namespace: String, name: String) -> (found: Option<usize>)
        ensures
            found == query_spec(self@, (namespace@, name@)),
    {
        let ghost key = (namespace@, name@);
        let mut i: usize = 0;
        while i < self.registered_funcs.len()
            invariant
                i <= self.registered_funcs@.len(),
                key == (namespace@, name@),
                lookup(self.registered_funcs@.subrange(0, i as int), key) is None,
            decreases self.registered_funcs@.len() - i,
        {
            let entry = &self.registered_funcs[i];
            proof {
                assert(self.registered_funcs@.subrange(0, i + 1).drop_last()
                    =~= self.registered_funcs@.subrange(0, i as int));
            }
            if entry.namespace == namespace && entry.name == name {
                proof {
                    lookup_keeps_first(self.registered_funcs@, key, i + 1);
                }
                return Some(entry.pointer);
            }
            i += 1;
        }
        proof {
            assert(self.registered_funcs@.subrange(0, i as int) =~= self.registered_funcs@);
        }
        None
    }

    /// Registers the address under the key unless the key is taken, and says
    /// whether it did. A key that is taken keeps its address.
    pub fn register(&mut self, namespace: String, name: String, pointer: usize) -> (added: bool)
        ensures
            (final(self)@, added) == register_spec(old(self)@, (namespace@, name@), pointer),
    {
        let ghost key = (namespace@, name@);
        let ghost before = self.registered_funcs@;
        let taken = self.query(namespace.clone(), name.clone());
        if taken.is_some() {
            return false;
        }
        self.registered_funcs.push(Capability { namespace, name, pointer });
        proof {
            let after = self.registered_funcs@;
            assert(after.drop_last() =~= before);
            assert forall|other: CapabilityKey| #[trigger]
                lookup(after, other) == if other == key {
                    Some(pointer)
                } else {
                    lookup(before, other)
                } by {
                if other != key {
                    assert(!(after.last().namespace@ == other.0 && after.last().name@ == other.1));
                }
            }
            assert(self@ =~= old(self)@.insert(key, pointer));
        }
        true
    }
}

/// The query entry of the capability table: the registered address, or the
/// null address where the key is not registered.
pub fn loader_query_ptr_impl(state: &LoaderState, namespace: String, name: String) -> (pointer: usize)
    ensures
        pointer == match query_spec(state@, (namespace@, name@)) {
            Some(found) => found,
            None => 0,
        },
{
    match state.query(namespace, name) {
        Some(found) => found,
        None => 0,
    }
}

/// The register entry of the capability table.
pub fn loader_register_ptr_impl(
    state: &mut LoaderState,
    namespace: String,
    name: String,
    function: usize,
) -> (added: bool)
    ensures
        (final(state)@, added) == register_spec(old(state)@, (namespace@, name@), function),
{
    state.register(namespace, name, function)
}

/// The module's side of a query: a null address stands for "not registered".
pub fn pointer_or_none(pointer: usize) -> (found: Option<usize>)
    ensures
        found == if pointer == 0 {
            None
        } else {
            Some(pointer)
        },
{
    if pointer == 0 {
        None
    } else {
        Some(pointer)
    }
}

/// Registering a key twice: the second call adds nothing and changes
/// nothing, and a query returns the address of the first call.
pub proof fn second_registration_is_refused(
    map: Map<CapabilityKey, usize>,
    key: CapabilityKey,
    first: usize,
    second: usize,
)
    requires
        !map.contains_key(key),
    ensures
        register_spec(map, key, first).1,
        register_spec(register_spec(map, key, first).0, key, second) == (
            register_spec(map, key, first).0,
            false,
        ),
        query_spec(register_spec(register_spec(map, key, first).0, key, second).0, key) == Some(
            first,
        ),
{
}

/// No registration changes what a registered key holds.
pub proof fn registered_key_is_immutable(
    map: Map<CapabilityKey, usize>,
    key: CapabilityKey,
    other: CapabilityKey,
    pointer: usize,
)
    requires
        map.contains_key(key),
    ensures
        query_spec(register_spec(map, other, pointer).0, key) == query_spec(map, key),
{
}

} // verus!
