//! The decision cycle: changes are staged in an action, the rules judge it,
//! and it is committed to the world.

use crate::data::{Data, TypeKey};
use crate::entity_store::{get_future_component, Action, Components, EntityId, EntityStore};
use crate::rule::RuleResult;
use std::ops::Add;
use vstd::prelude::*;
use vstd::std_specs::ops::AddSpec;

verus! {

/// A world and the rules that judge every action before it is committed. A
/// rule is a function of the world and the pending action; it changes
/// neither.
pub struct Game<V, R> {
    world: EntityStore<V>,
    rules: Vec<R>,
}

impl<V, R: Fn(&EntityStore<V>, &Action<V>) -> RuleResult> Game<V, R> {
    /// The world.
    pub closed spec fn world_spec(&self) -> EntityStore<V> {
        self.world
    }

    /// The rules, in the order in which they were registered.
    pub closed spec fn rules_spec(&self) -> Seq<R> {
        self.rules@
    }

    /// The world holds at most one container for each component type.
    pub open spec fn wf(&self) -> bool {
        self.world_spec().wf()
    }

    /// Whether every rule can be called on the world and `action`.
    pub open spec fn can_judge(&self, action: Action<V>) -> bool {
        forall|i: int|
            0 <= i < self.rules_spec().len() ==> call_requires(
                #[trigger] self.rules_spec()[i],
                (&self.world_spec(), &action),
            )
    }

    /// A game with an empty world and no rules.
    pub fn new() -> (game: Game<V, R>)
        ensures
            game.wf(),
            game.world_spec()@ == Map::<TypeKey, Components<V>>::empty(),
            game.rules_spec() == Seq::<R>::empty(),
    {
        Game { world: EntityStore::new(), rules: Vec::new() }
    }

    /// Registers `rule` behind the rules that are there.
    pub fn add_rule(&mut self, rule: R)
        ensures
            final(self).world_spec() == old(self).world_spec(),
            final(self).rules_spec() == old(self).rules_spec().push(rule),
    {
        self.rules.push(rule);
    }

    /// The world, to read.
    pub fn world(&self) -> (world: &EntityStore<V>)
        ensures
            *world == self.world_spec(),
    {
        &self.world
    }

    /// Runs one decision cycle on `action`: the validation pass of
    /// [`Game::validate`], then the commit. The action is committed whatever
    /// the rules said; what they said is handed back, one result per rule. A
    /// caller that wants a rejected action dropped validates it first and
    /// starts the cycle only if no rule rejects.
    pub fn start(&mut self, action: &mut Action<V>) -> (results: Vec<RuleResult>)
        requires
            old(self).wf(),
            old(action).wf(),
            old(self).can_judge(*old(action)),
        ensures
            final(self).wf(),
            final(action).wf(),
            final(self).rules_spec() == old(self).rules_spec(),
            results@.len() == old(self).rules_spec().len(),
            forall|i: int|
                0 <= i < results@.len() ==> call_ensures(
                    old(self).rules_spec()[i],
                    (&old(self).world_spec(), &*old(action)),
                    #[trigger] results@[i],
                ),
            final(self).world_spec()@ == crate::entity_store::merged(
                old(self).world_spec()@,
                old(action)@,
            ),
            final(action)@ == crate::entity_store::drained(old(action)@),
    {
        self.main_loop(action)
    }

    /// The validation pass: every rule judges `action` against the world, in
    /// the order of registration, each seeing the same world and the same
    /// action. Neither changes. The results come back one per rule, in the
    /// order of the rules.
    pub fn validate(&self, action: &Action<V>) -> (results: Vec<RuleResult>)
        requires
            self.can_judge(*action),
        ensures
            results@.len() == self.rules_spec().len(),
            forall|i: int|
                0 <= i < results@.len() ==> call_ensures(
                    self.rules_spec()[i],
                    (&self.world_spec(), action),
                    #[trigger] results@[i],
                ),
    {
        let mut results: Vec<RuleResult> = Vec::new();
        let mut i: usize = 0;
        while i < self.rules.len()
            invariant
                i <= self.rules@.len(),
                results@.len() == i,
                self.can_judge(*action),
                forall|j: int|
                    0 <= j < i ==> call_ensures(
                        self.rules@[j],
                        (&self.world, action),
                        #[trigger] results@[j],
                    ),
            decreases self.rules@.len() - i,
        {
            assert(call_requires(self.rules_spec()[i as int], (&self.world_spec(), action)));
            let result = (self.rules[i])(&self.world, action);
            results.push(result);
            i += 1;
        }
        results
    }

    /// One decision cycle: the validation pass, then the commit.
    fn main_loop(&mut self, action: &mut Action<V>) -> (results: Vec<RuleResult>)
        requires
            old(self).wf(),
            old(action).wf(),
            old(self).can_judge(*old(action)),
        ensures
            final(self).wf(),
            final(action).wf(),
            final(self).rules_spec() == old(self).rules_spec(),
            results@.len() == old(self).rules_spec().len(),
            forall|i: int|
                0 <= i < results@.len() ==> call_ensures(
                    old(self).rules_spec()[i],
                    (&old(self).world_spec(), &*old(action)),
                    #[trigger] results@[i],
                ),
            final(self).world_spec()@ == crate::entity_store::merged(
                old(self).world_spec()@,
                old(action)@,
            ),
            final(action)@ == crate::entity_store::drained(old(action)@),
    {
        let results = self.validate(action);
        self.world.commit(action);
        results
    }
}

/// Stages a move of `entity` by `direction`. The position that is moved is
/// the one a future read gives, so that a move follows on the moves already
/// staged in `action`. An entity without a position stays without one.
pub fn move_position<V, P: Data<V> + Copy + Add<Output = P>>(
    world: &EntityStore<V>,
    action: &mut Action<V>,
    entity: EntityId,
    direction: P,
)
    requires
        world.wf(),
        old(action).wf(),
        (match crate::entity_store::future_component_at::<V, P>(world@, old(action)@, entity) {
            Some(position) => position.add_req(direction),
            None => true,
        }),
    ensures
        final(action).wf(),
        (match crate::entity_store::future_component_at::<V, P>(world@, old(action)@, entity) {
            Some(position) => exists|moved: P|
                ({
                    &&& P::obeys_add_spec() ==> moved == position.add_spec(direction)
                    &&& final(action)@ == #[trigger] crate::entity_store::with_entry(
                        old(action)@,
                        P::type_key(),
                        entity,
                        Some(moved.erased()),
                    )
                }),
            None => final(action)@ == old(action)@,
        }),
{
    let moved = match get_future_component::<V, P>(entity, world, action) {
        Some(position) => Some(*position + direction),
        None => None,
    };
    match moved {
        Some(new_position) => {
            action.set_component(entity, new_position);
        },
        None => {},
    }
}

} // verus!
