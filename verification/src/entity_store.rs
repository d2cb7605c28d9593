//! The entity-component store, actions staged against it, and the reads that
//! look through an action at the store behind it.

use crate::data::{Data, TypeKey};
use std::collections::HashMap;
use vstd::prelude::*;
use vstd::std_specs::iter::IteratorSpec;

verus! {

broadcast use vstd::std_specs::hash::group_hash_axioms;

/// Identifies an entity. An entity exists only through the components filed
/// under its id.
pub type EntityId = usize;

/// What one container holds: for each entity with an entry, its component, or
/// `None` where the component was cleared.
pub type Components<V> = Map<EntityId, Option<V>>;

/// What a store holds: the contents of each registered container, by the key
/// of its component type.
pub type Registry<V> = Map<TypeKey, Map<EntityId, Option<V>>>;

/// The contents of the container for `key`, empty where none is registered.
pub open spec fn container_of<V>(store: Registry<V>, key: TypeKey) -> Components<V> {
    if store.contains_key(key) {
        store[key]
    } else {
        Map::empty()
    }
}

/// Whether the container for `key` has an entry, component or tombstone, for
/// `entity`.
pub open spec fn has_entry<V>(store: Registry<V>, key: TypeKey, entity: EntityId) -> bool {
    store.contains_key(key) && store[key].contains_key(entity)
}

/// The erased component that can be read for `entity` under `key`: `None`
/// where the container is missing, has no entry or holds a tombstone.
pub open spec fn erased_at<V>(store: Registry<V>, key: TypeKey, entity: EntityId) -> Option<V> {
    if has_entry(store, key, entity) {
        store[key][entity]
    } else {
        None
    }
}

/// The component of type `T` that can be read for `entity`.
pub open spec fn component_at<V, T: Data<V>>(store: Registry<V>, entity: EntityId) -> Option<T> {
    match erased_at(store, T::type_key(), entity) {
        Some(v) => T::recovered(v),
        None => None,
    }
}

/// The store after `entry` is recorded for `entity` under `key`, in a new
/// container where none was registered.
pub open spec fn with_entry<V>(
    store: Registry<V>,
    key: TypeKey,
    entity: EntityId,
    entry: Option<V>,
) -> Registry<V> {
    store.insert(key, container_of(store, key).insert(entity, entry))
}

/// The store after the component of `entity` under `key` is cleared: a
/// tombstone in the container for `key`, nothing where none is registered.
pub open spec fn with_tombstone<V>(
    store: Registry<V>,
    key: TypeKey,
    entity: EntityId,
) -> Registry<V> {
    if store.contains_key(key) {
        with_entry(store, key, entity, None)
    } else {
        store
    }
}

/// The store after `entity` is cleared: a tombstone in every container.
pub open spec fn without_entity<V>(store: Registry<V>, entity: EntityId) -> Registry<V> {
    Map::new(|k: TypeKey| store.contains_key(k), |k: TypeKey| store[k].insert(entity, None))
}

/// The store after everything in `staged` is merged into it: each staged
/// entry replaces the entry for its entity, and everything else stays.
pub open spec fn merged<V>(store: Registry<V>, staged: Registry<V>) -> Registry<V> {
    Map::new(
        |k: TypeKey| store.contains_key(k) || staged.contains_key(k),
        |k: TypeKey| container_of(store, k).union_prefer_right(container_of(staged, k)),
    )
}

/// What is left of `staged` once it is merged: its containers, all empty.
pub open spec fn drained<V>(staged: Registry<V>) -> Registry<V> {
    Map::new(|k: TypeKey| staged.contains_key(k), |k: TypeKey| Map::empty())
}

/// What a future read gives for `entity`: the component of type `T` that
/// `staged` holds for it, or the one in `store` where `staged` holds none.
pub open spec fn future_component_at<V, T: Data<V>>(
    store: Registry<V>,
    staged: Registry<V>,
    entity: EntityId,
) -> Option<T> {
    match component_at::<V, T>(staged, entity) {
        Some(c) => Some(c),
        None => component_at::<V, T>(store, entity),
    }
}

/// A container of the components of one type: for each entity an entry that
/// is a component or, once cleared, a tombstone.
pub trait ComponentContainer: Sized {
    /// The type of the components, in their erased form.
    type Component;

    /// What the container holds.
    spec fn components(&self) -> Map<EntityId, Option<Self::Component>>;

    /// Clears the component of `entity`, leaving a tombstone.
    fn set_none(&mut self, entity: EntityId)
        ensures
            final(self).components() == old(self).components().insert(entity, None),
    ;

    /// Moves every entry of `source` into this container, where it replaces
    /// the entry for its entity.
    fn commit(&mut self, source: &mut Self)
        ensures
            final(self).components() == old(self).components().union_prefer_right(
                old(source).components(),
            ),
            final(source).components() == Map::<EntityId, Option<Self::Component>>::empty(),
    ;
}

/// The entities with an entry in `map`, each once.
pub(crate) fn entities_of<V>(map: &HashMap<EntityId, Option<V>>) -> (entities: Vec<EntityId>)
    ensures
        entities@.no_duplicates(),
        entities@.to_set() == map@.dom(),
{
    let mut entities: Vec<EntityId> = Vec::new();
    let ghost all: Seq<EntityId> = map.keys().remaining().unref();
    for entity in it: map.keys()
        invariant
            it.seq().unref() == all,
            entities@ == all.take(it.index()),
    {
        entities.push(*entity);
    }
    assert(entities@ == all);
    entities
}

impl<V> ComponentContainer for HashMap<EntityId, Option<V>> {
    type Component = V;

    open spec fn components(&self) -> Map<EntityId, Option<V>> {
        self@
    }

    fn set_none(&mut self, entity: EntityId) {
        self.insert(entity, None);
    }

    fn commit(&mut self, source: &mut Self) {
        let entities = entities_of(source);
        let mut i: usize = 0;
        while i < entities.len()
            invariant
                i <= entities@.len(),
                entities@.no_duplicates(),
                entities@.to_set() == old(source)@.dom(),
                source@ == old(source)@.remove_keys(entities@.take(i as int).to_set()),
                self@ == old(self)@.union_prefer_right(
                    old(source)@.restrict(entities@.take(i as int).to_set()),
                ),
            decreases entities@.len() - i,
        {
            let entity = entities[i];
            proof {
                let done = entities@.take(i as int);
                assert(entities@.take(i as int + 1) == done.push(entity));
                done.lemma_push_to_set_commute(entity);
            }
            match source.remove(&entity) {
                Some(entry) => {
                    self.insert(entity, entry);
                },
                None => {},
            }
            i += 1;
        }
        proof {
            assert(entities@.take(entities@.len() as int) == entities@);
        }
    }
}

/// One registered container with the key of its component type.
struct ComponentMap<V> {
    key: TypeKey,
    entries: HashMap<EntityId, Option<V>>,
}

/// Holds the components of every entity, one container per component type.
pub struct EntityStore<V> {
    component_maps: Vec<ComponentMap<V>>,
}

impl<V> View for EntityStore<V> {
    type V = Registry<V>;

    closed spec fn view(&self) -> Registry<V> {
        Map::new(
            |k: TypeKey| self.keys().contains(k),
            |k: TypeKey| self.component_maps@[self.keys().index_of(k)].entries@,
        )
    }
}

impl<V> EntityStore<V> {
    /// The keys of the registered containers, in the order of registration.
    closed spec fn keys(&self) -> Seq<TypeKey> {
        self.component_maps@.map_values(|m: ComponentMap<V>| m.key)
    }

    /// At most one container is registered for each component type.
    pub closed spec fn wf(&self) -> bool {
        self.keys().no_duplicates()
    }

    /// What the view says of the container at `i`.
    proof fn lemma_view_at(&self, i: int)
        requires
            self.wf(),
            0 <= i < self.component_maps@.len(),
        ensures
            self@.contains_key(self.component_maps@[i].key),
            self@[self.component_maps@[i].key] == self.component_maps@[i].entries@,
    {
        assert(self.keys()[i] == self.component_maps@[i].key);
    }

    /// What the view is after the contents of the container at `place`, and
    /// of no other, have changed.
    proof fn lemma_changed_at(before: Self, after: Self, place: int)
        requires
            before.wf(),
            0 <= place < before.component_maps@.len(),
            after.component_maps@.len() == before.component_maps@.len(),
            forall|i: int|
                0 <= i < before.component_maps@.len() ==> (#[trigger] after.component_maps@[i]).key
                    == before.component_maps@[i].key,
            forall|i: int|
                0 <= i < before.component_maps@.len() && i != place ==> (
                #[trigger] after.component_maps@[i]).entries@
                    == before.component_maps@[i].entries@,
        ensures
            after.wf(),
            after@ == before@.insert(
                before.component_maps@[place].key,
                after.component_maps@[place].entries@,
            ),
    {
        assert(after.keys() =~= before.keys());
        after.lemma_view_at(place);
    }

    /// A store without containers.
    pub fn new() -> (store: Self)
        ensures
            store.wf(),
            store@ == Map::<TypeKey, Components<V>>::empty(),
    {
        let store = EntityStore { component_maps: Vec::new() };
        store
    }

    /// The place of the container for `key`, if one is registered.
    fn find(&self, key: TypeKey) -> (place: Option<usize>)
        ensures
            (match place {
                Some(i) => {
                    &&& i < self.component_maps@.len()
                    &&& self.component_maps@[i as int].key == key
                },
                None => !self.keys().contains(key),
            }),
    {
        let mut i: usize = 0;
        while i < self.component_maps.len()
            invariant
                i <= self.component_maps@.len(),
                forall|j: int| 0 <= j < i ==> self.keys()[j] != key,
            decreases self.component_maps@.len() - i,
        {
            if self.component_maps[i].key == key {
                return Some(i);
            }
            i += 1;
        }
        None
    }

    /// The place of the container for `key`, registered empty where there
    /// was none.
    fn find_or_register(&mut self, key: TypeKey) -> (place: usize)
        requires
            old(self).wf(),
        ensures
            final(self).wf(),
            place < final(self).component_maps@.len(),
            final(self).component_maps@[place as int].key == key,
            final(self)@ == old(self)@.insert(key, container_of(old(self)@, key)),
    {
        match self.find(key) {
            Some(i) => {
                proof {
                    self.lemma_view_at(i as int);
                }
                i
            },
            None => {
                self.component_maps.push(ComponentMap { key, entries: HashMap::new() });
                proof {
                    let added = old(self).keys().len() as int;
                    assert(self.keys() =~= old(self).keys().push(key));
                    assert forall|k: TypeKey|
                        old(self)@.contains_key(k) || k == key implies #[trigger]
                        self@.contains_key(k) by {
                        if k == key {
                            assert(self.keys()[added] == key);
                        } else {
                            assert(self.keys()[old(self).keys().index_of(k)] == k);
                        }
                    }
                }
                self.component_maps.len() - 1
            },
        }
    }

    /// Records `component` for `entity`, in a new container if this is the
    /// first component of its type. Any id is accepted.
    pub fn set_component<ComponentType: Data<V>>(
        &mut self,
        entity: EntityId,
        component: ComponentType,
    )
        requires
            old(self).wf(),
        ensures
            final(self).wf(),
            final(self)@ == with_entry(
                old(self)@,
                ComponentType::type_key(),
                entity,
                Some(component.erased()),
            ),
    {
        let key = ComponentType::key();
        let erased = component.erase();
        let place = self.find_or_register(key);
        let ghost registered = *self;
        proof {
            registered.lemma_view_at(place as int);
        }
        self.component_maps[place].entries.insert(entity, Some(erased));
        proof {
            Self::lemma_changed_at(registered, *self, place as int);
        }
    }

    /// The component of type `ComponentType` of `entity`: `None` where no
    /// container of that type is registered, where the entity has no entry in
    /// it, and where its component was cleared.
    pub fn get_component<ComponentType: Data<V>>(&self, entity: EntityId) -> (component: Option<
        &ComponentType,
    >)
        requires
            self.wf(),
        ensures
            (match component {
                Some(c) => Some(*c),
                None => None,
            }) == component_at::<V, ComponentType>(self@, entity),
            !self@.contains_key(ComponentType::type_key()) ==> component is None,
    {
        let key = ComponentType::key();
        match self.find(key) {
            Some(i) => {
                proof {
                    self.lemma_view_at(i as int);
                }
                match self.component_maps[i].entries.get(&entity) {
                    Some(Some(erased)) => ComponentType::recover(erased),
                    _ => None,
                }
            },
            None => None,
        }
    }

    /// Clears the component of type `ComponentType` of `entity`: a tombstone
    /// in the container of that type, nothing where none is registered.
    pub fn set_none<ComponentType: Data<V>>(&mut self, entity: EntityId)
        requires
            old(self).wf(),
        ensures
            final(self).wf(),
            final(self)@ == with_tombstone(old(self)@, ComponentType::type_key(), entity),
    {
        let key = ComponentType::key();
        match self.find(key) {
            Some(i) => {
                proof {
                    self.lemma_view_at(i as int);
                }
                self.component_maps[i].entries.set_none(entity);
                proof {
                    Self::lemma_changed_at(*old(self), *self, i as int);
                }
            },
            None => {},
        }
    }

    /// Clears the component of type `ComponentType` of `entity`, as
    /// [`EntityStore::set_none`] does.
    pub fn clear_component<ComponentType: Data<V>>(&mut self, entity: EntityId)
        requires
            old(self).wf(),
        ensures
            final(self).wf(),
            final(self)@ == with_tombstone(old(self)@, ComponentType::type_key(), entity),
    {
        self.set_none::<ComponentType>(entity);
    }

    /// Clears every component of `entity`: a tombstone in each registered
    /// container. The id stays usable.
    pub fn set_entity_none(&mut self, entity: EntityId)
        requires
            old(self).wf(),
        ensures
            final(self).wf(),
            final(self)@ == without_entity(old(self)@, entity),
    {
        let mut i: usize = 0;
        while i < self.component_maps.len()
            invariant
                i <= self.component_maps@.len(),
                self.component_maps@.len() == old(self).component_maps@.len(),
                forall|j: int|
                    0 <= j < self.component_maps@.len() ==> (#[trigger] self.component_maps@[j]).key
                        == old(self).component_maps@[j].key,
                forall|j: int|
                    0 <= j < i ==> (#[trigger] self.component_maps@[j]).entries@ == old(
                        self,
                    ).component_maps@[j].entries@.insert(entity, None),
                forall|j: int|
                    i <= j < self.component_maps@.len() ==> (
                    #[trigger] self.component_maps@[j]).entries@ == old(
                        self,
                    ).component_maps@[j].entries@,
            decreases self.component_maps@.len() - i,
        {
            self.component_maps[i].entries.set_none(entity);
            i += 1;
        }
        proof {
            assert(self.keys() =~= old(self).keys());
        }
    }

    /// Clears every component of `entity`, as [`EntityStore::set_entity_none`]
    /// does.
    pub fn clear_entity(&mut self, entity: EntityId)
        requires
            old(self).wf(),
        ensures
            final(self).wf(),
            final(self)@ == without_entity(old(self)@, entity),
    {
        self.set_entity_none(entity);
    }

    /// The container of the components of type `ComponentType`, if one is
    /// registered.
    pub fn get_map<ComponentType: Data<V>>(&self) -> (map: Option<&HashMap<EntityId, Option<V>>>)
        requires
            self.wf(),
        ensures
            (match map {
                Some(m) => self@.contains_key(ComponentType::type_key()) && m@
                    == self@[ComponentType::type_key()],
                None => !self@.contains_key(ComponentType::type_key()),
            }),
    {
        let key = ComponentType::key();
        match self.find(key) {
            Some(i) => {
                proof {
                    self.lemma_view_at(i as int);
                }
                Some(&self.component_maps[i].entries)
            },
            None => None,
        }
    }

    /// The container of the components of type `ComponentType`, if one is
    /// registered, for changes in place: what the caller leaves in it is what
    /// the store then holds for that type.
    pub fn get_map_mut<ComponentType: Data<V>>(&mut self) -> (map: Option<
        &mut HashMap<EntityId, Option<V>>,
    >)
        requires
            old(self).wf(),
        ensures
            final(self).wf(),
            (match map {
                Some(m) => {
                    &&& old(self)@.contains_key(ComponentType::type_key())
                    &&& m@ == old(self)@[ComponentType::type_key()]
                    &&& final(self)@ == old(self)@.insert(ComponentType::type_key(), final(m)@)
                },
                None => {
                    &&& !old(self)@.contains_key(ComponentType::type_key())
                    &&& final(self)@ == old(self)@
                },
            }),
    {
        let key = ComponentType::key();
        match self.find(key) {
            Some(i) => {
                proof {
                    self.lemma_view_at(i as int);
                }
                let map = &mut self.component_maps[i].entries;
                proof {
                    Self::lemma_changed_at(*old(self), after_borrow(*self), i as int);
                }
                Some(map)
            },
            None => None,
        }
    }

    /// Merges everything that `action` has staged into the store and leaves
    /// the action empty. A staged entry replaces the entry for its entity; a
    /// container that only the action has is registered here too; everything
    /// else stays as it is.
    pub fn commit(&mut self, action: &mut Action<V>)
        requires
            old(self).wf(),
            old(action).wf(),
        ensures
            final(self).wf(),
            final(action).wf(),
            final(self)@ == merged(old(self)@, old(action)@),
            final(action)@ == drained(old(action)@),
    {
        let ghost staged = old(action).insertions;
        let mut j: usize = 0;
        proof {
            lemma_merged_nothing(self@, staged@);
        }
        while j < action.insertions.component_maps.len()
            invariant
                self.wf(),
                staged.wf(),
                staged == old(action).insertions,
                j <= action.insertions.component_maps@.len(),
                action.insertions.component_maps@.len() == staged.component_maps@.len(),
                forall|m: int|
                    0 <= m < staged.component_maps@.len() ==> (
                    #[trigger] action.insertions.component_maps@[m]).key
                        == staged.component_maps@[m].key,
                forall|m: int|
                    0 <= m < j ==> (#[trigger] action.insertions.component_maps@[m]).entries@
                        == Map::<EntityId, Option<V>>::empty(),
                forall|m: int|
                    j <= m < staged.component_maps@.len() ==> (
                    #[trigger] action.insertions.component_maps@[m]).entries@
                        == staged.component_maps@[m].entries@,
                self@ == merged(
                    old(self)@,
                    staged@.restrict(staged.keys().take(j as int).to_set()),
                ),
            decreases action.insertions.component_maps@.len() - j,
        {
            let key = action.insertions.component_maps[j].key;
            let place = self.find_or_register(key);
            let ghost registered = *self;
            let staged_entries = &mut action.insertions.component_maps[j].entries;
            self.component_maps[place].entries.commit(staged_entries);
            proof {
                let done = staged.keys().take(j as int);
                assert(staged.keys()[j as int] == key);
                assert(staged.keys().take(j as int + 1) == done.push(key));
                done.lemma_push_to_set_commute(key);
                registered.lemma_view_at(place as int);
                Self::lemma_changed_at(registered, *self, place as int);
                lemma_merged_one_more(old(self)@, staged@, done.to_set(), key);
            }
            j += 1;
        }
        proof {
            assert(action.insertions.keys() =~= staged.keys());
            assert(staged.keys().take(staged.keys().len() as int) == staged.keys());
        }
    }
}

/// Merging a store that has no containers changes nothing.
proof fn lemma_merged_nothing<V>(store: Registry<V>, staged: Registry<V>)
    ensures
        merged(store, staged.restrict(Set::empty())) == store,
{
    let nothing = staged.restrict(Set::empty());
    assert(forall|k: TypeKey| #[trigger]
        store.contains_key(k) ==> merged(store, nothing)[k] == store[k]);
}

/// Merging the containers of `done` and the one for `key` is merging those of
/// `done` and then the one for `key`.
proof fn lemma_merged_one_more<V>(
    store: Registry<V>,
    staged: Registry<V>,
    done: Set<TypeKey>,
    key: TypeKey,
)
    requires
        staged.contains_key(key),
        !done.contains(key),
    ensures
        merged(store, staged.restrict(done.insert(key))) == ({
            let so_far = merged(store, staged.restrict(done));
            so_far.insert(key, container_of(so_far, key).union_prefer_right(staged[key]))
        }),
{
    let so_far = merged(store, staged.restrict(done));
    assert(container_of(so_far, key) =~= container_of(store, key));
}

/// The component of type `ComponentType` that `entity` would have if `action`
/// were committed to `entity_store`: the component staged in the action where
/// it holds one, the component in the store where it does not. Neither the
/// store nor the action changes.
pub fn get_future_component<'a, V, ComponentType: Data<V>>(
    entity: EntityId,
    entity_store: &'a EntityStore<V>,
    action: &'a Action<V>,
) -> (component: Option<&'a ComponentType>)
    requires
        entity_store.wf(),
        action.wf(),
    ensures
        (match component {
            Some(c) => Some(*c),
            None => None,
        }) == future_component_at::<V, ComponentType>(entity_store@, action@, entity),
{
    match action.insertions.get_component::<ComponentType>(entity) {
        Some(staged) => Some(staged),
        None => entity_store.get_component::<ComponentType>(entity),
    }
}

/// Changes proposed for a store, staged until they are committed. Dropping an
/// action discards them.
pub struct Action<V> {
    pub insertions: EntityStore<V>,
}

impl<V> View for Action<V> {
    type V = Registry<V>;

    open spec fn view(&self) -> Registry<V> {
        self.insertions@
    }
}

impl<V> Action<V> {
    /// The staging store holds at most one container for each component type.
    pub open spec fn wf(&self) -> bool {
        self.insertions.wf()
    }

    /// An action with nothing staged.
    pub fn new() -> (action: Self)
        ensures
            action.wf(),
            action@ == Map::<TypeKey, Components<V>>::empty(),
    {
        Action { insertions: EntityStore::new() }
    }

    /// Stages `component` for `entity`. A component staged earlier for the
    /// same entity and type is replaced.
    pub fn set_component<ComponentType: Data<V>>(
        &mut self,
        entity: EntityId,
        component: ComponentType,
    )
        requires
            old(self).wf(),
        ensures
            final(self).wf(),
            final(self)@ == with_entry(
                old(self)@,
                ComponentType::type_key(),
                entity,
                Some(component.erased()),
            ),
    {
        self.insertions.set_component(entity, component);
    }
}

/// A read of a component type that no container is registered for finds
/// nothing, whatever the entity.
pub proof fn lemma_unregistered_type_reads_none<V, T: Data<V>>(store: Registry<V>, entity: EntityId)
    requires
        !store.contains_key(T::type_key()),
    ensures
        component_at::<V, T>(store, entity) is None,
{
}

/// A component that was set is the one that is read, and the components of
/// other entities and of types with another key read as before.
pub proof fn lemma_set_then_get<V, T: Data<V>, U: Data<V>>(
    store: Registry<V>,
    entity: EntityId,
    component: T,
    other: EntityId,
)
    ensures
        component_at::<V, T>(
            with_entry(store, T::type_key(), entity, Some(component.erased())),
            entity,
        ) == Some(component),
        other != entity || U::type_key() != T::type_key() ==> component_at::<V, U>(
            with_entry(store, T::type_key(), entity, Some(component.erased())),
            other,
        ) == component_at::<V, U>(store, other),
{
    component.lemma_recover_erased();
    if other != entity || U::type_key() != T::type_key() {
    }
}

/// After a commit, every entry that the action had staged is what is read,
/// and every component for which it had staged no entry reads as before.
pub proof fn lemma_commit_monotonic<V, T: Data<V>>(
    store: Registry<V>,
    staged: Registry<V>,
    entity: EntityId,
)
    ensures
        has_entry(staged, T::type_key(), entity) ==> component_at::<V, T>(
            merged(store, staged),
            entity,
        ) == component_at::<V, T>(staged, entity),
        !has_entry(staged, T::type_key(), entity) ==> component_at::<V, T>(
            merged(store, staged),
            entity,
        ) == component_at::<V, T>(store, entity),
{
}

/// A future read gives the component that the action has staged, whatever
/// the store holds, and the component in the store where the action has
/// staged none.
pub proof fn lemma_future_read_precedence<V, T: Data<V>>(
    store: Registry<V>,
    staged: Registry<V>,
    entity: EntityId,
)
    ensures
        component_at::<V, T>(staged, entity) is Some ==> future_component_at::<V, T>(
            store,
            staged,
            entity,
        ) == component_at::<V, T>(staged, entity),
        component_at::<V, T>(staged, entity) is None ==> future_component_at::<V, T>(
            store,
            staged,
            entity,
        ) == component_at::<V, T>(store, entity),
{
}

/// A future read gives what a read gives once the action is committed,
/// unless the action holds an entry for the entity that reads as nothing: a
/// tombstone hides the component after the commit, but not in the future
/// read.
pub proof fn lemma_future_read_is_read_after_commit<V, T: Data<V>>(
    store: Registry<V>,
    staged: Registry<V>,
    entity: EntityId,
)
    requires
        has_entry(staged, T::type_key(), entity) ==> component_at::<V, T>(staged, entity) is Some,
    ensures
        future_component_at::<V, T>(store, staged, entity) == component_at::<V, T>(
            merged(store, staged),
            entity,
        ),
{
}

/// A cleared component reads as nothing, and a component set after that is
/// read again.
pub proof fn lemma_tombstone_visibility<V, T: Data<V>>(
    store: Registry<V>,
    entity: EntityId,
    component: T,
)
    ensures
        component_at::<V, T>(with_tombstone(store, T::type_key(), entity), entity) is None,
        component_at::<V, T>(
            with_entry(
                with_tombstone(store, T::type_key(), entity),
                T::type_key(),
                entity,
                Some(component.erased()),
            ),
            entity,
        ) == Some(component),
{
    component.lemma_recover_erased();
}

/// Clearing an entity leaves no component of it to read, and leaves the
/// components of every other entity as they were.
pub proof fn lemma_cleared_entity_reads_none<V, T: Data<V>>(
    store: Registry<V>,
    entity: EntityId,
    other: EntityId,
)
    ensures
        component_at::<V, T>(without_entity(store, entity), entity) is None,
        other != entity ==> component_at::<V, T>(without_entity(store, entity), other)
            == component_at::<V, T>(store, other),
{
}

} // verus!
