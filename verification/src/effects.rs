//! Timed effects and the pipeline that applies them to data sheets, stage by
//! stage.

use crate::data::Data;
use crate::data_character::Health;
use crate::document::Document;
use crate::entity_store::{entities_of, EntityId, Registry};
use crate::time::{EffectDuration, WorldTime};
use std::collections::HashMap;
use vstd::prelude::*;

verus! {

broadcast use vstd::std_specs::hash::group_hash_axioms;

/// The effects of one entity, each with the time it lasts.
pub struct EffectStorage<E> {
    pub effects: Vec<(E, EffectDuration)>,
}

impl<E> EffectStorage<E> {
    /// No effects.
    pub fn new() -> (storage: EffectStorage<E>)
        ensures
            storage.effects@ == Seq::<(E, EffectDuration)>::empty(),
    {
        EffectStorage { effects: Vec::new() }
    }

    /// The effects with `effect` added behind them.
    pub fn with(self, effect: E, duration: EffectDuration) -> (storage: Self)
        ensures
            storage.effects@ == self.effects@.push((effect, duration)),
    {
        let mut storage = self;
        storage.effects.push((effect, duration));
        storage
    }
}

/// A phase of a tick. Each tick goes through the stages in the order in
/// which they stand here.
#[derive(Clone, Copy, Debug, PartialEq, Eq, Structural)]
pub enum EffectStage {
    /// Values are set outright, whatever they were.
    BaseValues,
    AdditiveModifiers,
    MultiplicativeModifiers,
    Healing,
}

/// The number of stages.
pub const STAGE_COUNT: usize = 4;

/// The stages of a tick, in order.
pub open spec fn stage_order() -> Seq<EffectStage> {
    seq![
        EffectStage::BaseValues,
        EffectStage::AdditiveModifiers,
        EffectStage::MultiplicativeModifiers,
        EffectStage::Healing,
    ]
}

/// The stage at `index` of the order.
fn stage_at(index: usize) -> (stage: EffectStage)
    requires
        index < stage_order().len(),
    ensures
        stage == stage_order()[index as int],
{
    if index == 0 {
        EffectStage::BaseValues
    } else if index == 1 {
        EffectStage::AdditiveModifiers
    } else if index == 2 {
        EffectStage::MultiplicativeModifiers
    } else {
        EffectStage::Healing
    }
}

/// A change to a data sheet that is made in the stages it is ready for.
pub trait Effect<V>: Send + Sync {
    /// Whether the effect is applied in `trigger`.
    spec fn is_ready(&self, trigger: EffectStage) -> bool;

    /// The data sheet after the effect is applied to `datasheet`.
    spec fn applied(&self, datasheet: Registry<V>) -> Registry<V>;

    /// Puts the effect back into the state it started in. An effect
    /// without state has nothing to do.
    fn reset(&self) {
    }

    /// Whether the effect is applied in `trigger`.
    fn ready(&self, trigger: &EffectStage) -> (ready: bool)
        ensures
            ready == self.is_ready(*trigger),
    ;

    /// Applies the effect to `datasheet`.
    fn update(&self, datasheet: &mut Document<V>)
        requires
            old(datasheet).wf(),
        ensures
            final(datasheet).wf(),
            final(datasheet)@ == self.applied(old(datasheet)@),
    ;
}

/// A boxed effect is the effect in the box, so that one list can hold
/// effects of different kinds.
impl<V> Effect<V> for Box<dyn Effect<V>> {
    open spec fn is_ready(&self, trigger: EffectStage) -> bool {
        (**self).is_ready(trigger)
    }

    open spec fn applied(&self, datasheet: Registry<V>) -> Registry<V> {
        (**self).applied(datasheet)
    }

    fn reset(&self) {
        (**self).reset()
    }

    fn ready(&self, trigger: &EffectStage) -> (ready: bool) {
        (**self).ready(trigger)
    }

    fn update(&self, datasheet: &mut Document<V>) {
        (**self).update(datasheet)
    }
}

/// The data sheet after one stage: each effect that is ready for `stage` and
/// has not expired at `now` is applied, in the order of the list.
pub open spec fn after_stage<V, E: Effect<V>>(
    effects: Seq<(E, EffectDuration)>,
    stage: EffectStage,
    now: u64,
    datasheet: Registry<V>,
) -> Registry<V>
    decreases effects.len(),
{
    if effects.len() == 0 {
        datasheet
    } else {
        let earlier = after_stage(effects.drop_last(), stage, now, datasheet);
        if !effects.last().1.expired_at(now) && effects.last().0.is_ready(stage) {
            effects.last().0.applied(earlier)
        } else {
            earlier
        }
    }
}

/// The data sheet after the stages of `stages`, one after the other.
spec fn after_stages<V, E: Effect<V>>(
    effects: Seq<(E, EffectDuration)>,
    stages: Seq<EffectStage>,
    now: u64,
    datasheet: Registry<V>,
) -> Registry<V>
    decreases stages.len(),
{
    if stages.len() == 0 {
        datasheet
    } else {
        after_stage(
            effects,
            stages.last(),
            now,
            after_stages(effects, stages.drop_last(), now, datasheet),
        )
    }
}

/// The data sheet after a tick at `now`: the four stages in their order, each
/// working on what the stage before it has left.
pub open spec fn after_tick<V, E: Effect<V>>(
    effects: Seq<(E, EffectDuration)>,
    now: u64,
    datasheet: Registry<V>,
) -> Registry<V> {
    after_stage(
        effects,
        EffectStage::Healing,
        now,
        after_stage(
            effects,
            EffectStage::MultiplicativeModifiers,
            now,
            after_stage(
                effects,
                EffectStage::AdditiveModifiers,
                now,
                after_stage(effects, EffectStage::BaseValues, now, datasheet),
            ),
        ),
    )
}

/// The effects that have not expired at `now`, in their order.
pub open spec fn unexpired<E>(effects: Seq<(E, EffectDuration)>, now: u64) -> Seq<
    (E, EffectDuration),
> {
    effects.filter(|timed: (E, EffectDuration)| !timed.1.expired_at(now))
}

/// Removes the effects that have expired at `time`.
fn prune<E>(effects: &mut Vec<(E, EffectDuration)>, time: &WorldTime)
    ensures
        final(effects)@ == unexpired(old(effects)@, time.passed),
{
    let ghost keep = |timed: (E, EffectDuration)| !timed.1.expired_at(time.passed);
    let ghost mut seen: int = 0;
    let mut i: usize = 0;
    proof {
        assert(old(effects)@.skip(0) =~= old(effects)@);
    }
    while i < effects.len()
        invariant
            0 <= seen <= old(effects)@.len(),
            i <= effects@.len(),
            keep == |timed: (E, EffectDuration)| !timed.1.expired_at(time.passed),
            effects@ == old(effects)@.take(seen).filter(keep) + old(effects)@.skip(seen),
            i == old(effects)@.take(seen).filter(keep).len(),
        decreases effects@.len() - i,
    {
        proof {
            reveal(Seq::filter);
            assert(old(effects)@.take(seen + 1).drop_last() =~= old(effects)@.take(seen));
        }
        if effects[i].1.expired(time) {
            effects.remove(i);
        } else {
            i += 1;
        }
        proof {
            seen = seen + 1;
        }
    }
}

/// One tick for one entity. In each stage, in order, every effect that is
/// ready for the stage and has not expired at `time` is applied to
/// `datasheet`, in the order of the list. The effects that have expired are
/// then removed from the list.
pub fn apply_effects<V, E: Effect<V>>(
    datasheet: &mut Document<V>,
    effects: &mut EffectStorage<E>,
    time: &WorldTime,
)
    requires
        old(datasheet).wf(),
    ensures
        final(datasheet).wf(),
        final(datasheet)@ == after_tick(old(effects).effects@, time.passed, old(datasheet)@),
        final(effects).effects@ == unexpired(old(effects).effects@, time.passed),
{
    let mut stage: usize = 0;
    while stage < STAGE_COUNT
        invariant
            stage <= STAGE_COUNT,
            stage_order().len() == STAGE_COUNT,
            datasheet.wf(),
            effects.effects@ == old(effects).effects@,
            datasheet@ == after_stages(
                effects.effects@,
                stage_order().take(stage as int),
                time.passed,
                old(datasheet)@,
            ),
        decreases STAGE_COUNT - stage,
    {
        let trigger = stage_at(stage);
        let ghost at_start = datasheet@;
        let mut i: usize = 0;
        while i < effects.effects.len()
            invariant
                i <= effects.effects@.len(),
                datasheet.wf(),
                datasheet@ == after_stage(
                    effects.effects@.take(i as int),
                    trigger,
                    time.passed,
                    at_start,
                ),
            decreases effects.effects@.len() - i,
        {
            proof {
                let next = effects.effects@.take(i as int + 1);
                assert(next.drop_last() =~= effects.effects@.take(i as int));
            }
            if !effects.effects[i].1.expired(time) && effects.effects[i].0.ready(&trigger) {
                effects.effects[i].0.update(datasheet);
            }
            i += 1;
        }
        proof {
            assert(effects.effects@.take(effects.effects@.len() as int) =~= effects.effects@);
            let next = stage_order().take(stage as int + 1);
            assert(next.drop_last() =~= stage_order().take(stage as int));
        }
        stage += 1;
    }
    proof {
        assert(stage_order().take(STAGE_COUNT as int) =~= stage_order());
        lemma_stages_in_order_are_a_tick(effects.effects@, time.passed, old(datasheet)@);
    }
    prune(&mut effects.effects, time);
}

/// One tick: [`apply_effects`] for every entity of `world`, each with its
/// data sheet and its effects.
pub fn effect_system<V, E: Effect<V>>(
    world: &mut Vec<(Document<V>, EffectStorage<E>)>,
    time: &WorldTime,
)
    requires
        forall|i: int| 0 <= i < old(world)@.len() ==> (#[trigger] old(world)@[i]).0.wf(),
    ensures
        final(world)@.len() == old(world)@.len(),
        forall|i: int|
            0 <= i < old(world)@.len() ==> ({
                &&& (#[trigger] final(world)@[i]).0.wf()
                &&& final(world)@[i].0@ == after_tick(
                    old(world)@[i].1.effects@,
                    time.passed,
                    old(world)@[i].0@,
                )
                &&& final(world)@[i].1.effects@ == unexpired(old(world)@[i].1.effects@, time.passed)
            }),
{
    let mut entity: usize = 0;
    while entity < world.len()
        invariant
            entity <= world@.len(),
            world@.len() == old(world)@.len(),
            forall|i: int| entity <= i < world@.len() ==> #[trigger] world@[i] == old(world)@[i],
            forall|i: int| 0 <= i < old(world)@.len() ==> (#[trigger] old(world)@[i]).0.wf(),
            forall|i: int|
                0 <= i < entity ==> ({
                    &&& (#[trigger] world@[i]).0.wf()
                    &&& world@[i].0@ == after_tick(
                        old(world)@[i].1.effects@,
                        time.passed,
                        old(world)@[i].0@,
                    )
                    &&& world@[i].1.effects@ == unexpired(old(world)@[i].1.effects@, time.passed)
                }),
        decreases world@.len() - entity,
    {
        let sheet = &mut world[entity];
        apply_effects(&mut sheet.0, &mut sheet.1, time);
        entity += 1;
    }
}

/// Heals by a fixed amount in the healing stage.
pub struct FastHealing(pub i32);

/// An entry of the health container after healing by `amount`: a health is
/// healed, anything else stays.
pub open spec fn healed_entry<V>(entry: Option<V>, amount: i32) -> Option<V> where Health: Data<V> {
    match entry {
        Some(erased) => match Health::recovered(erased) {
            Some(health) => Some(health.healed_by(amount).erased()),
            None => entry,
        },
        None => None,
    }
}

/// A data sheet after every health on it is healed by `amount`.
pub open spec fn healed<V>(
    datasheet: Registry<V>,
    amount: i32,
) -> Registry<V> where Health: Data<V> {
    if datasheet.contains_key(Health::type_key()) {
        datasheet.insert(
            Health::type_key(),
            Map::new(
                |entity: EntityId| datasheet[Health::type_key()].contains_key(entity),
                |entity: EntityId| healed_entry(datasheet[Health::type_key()][entity], amount),
            ),
        )
    } else {
        datasheet
    }
}

/// Heals every health in `healths` by `amount`.
fn heal_all<V>(healths: &mut HashMap<EntityId, Option<V>>, amount: i32) where Health: Data<V>
    ensures
        final(healths)@ == Map::new(
            |entity: EntityId| old(healths)@.contains_key(entity),
            |entity: EntityId| healed_entry(old(healths)@[entity], amount),
        ),
{
    let entities = entities_of(healths);
    let mut i: usize = 0;
    while i < entities.len()
        invariant
            i <= entities@.len(),
            entities@.no_duplicates(),
            entities@.to_set() == old(healths)@.dom(),
            healths@.dom() == old(healths)@.dom(),
            forall|j: int|
                0 <= j < i ==> healths@[#[trigger] entities@[j]] == healed_entry(
                    old(healths)@[entities@[j]],
                    amount,
                ),
            forall|j: int|
                i <= j < entities@.len() ==> healths@[#[trigger] entities@[j]] == old(
                    healths,
                )@[entities@[j]],
        decreases entities@.len() - i,
    {
        let entity = entities[i];
        let healed = match healths.get(&entity) {
            Some(Some(erased)) => match Health::recover(erased) {
                Some(health) => Some(health.heal(amount)),
                None => None,
            },
            _ => None,
        };
        match healed {
            Some(health) => {
                healths.insert(entity, Some(health.erase()));
            },
            None => {},
        }
        i += 1;
    }
}

impl<V> Effect<V> for FastHealing where Health: Data<V> {
    open spec fn is_ready(&self, trigger: EffectStage) -> bool {
        trigger is Healing
    }

    open spec fn applied(&self, datasheet: Registry<V>) -> Registry<V> {
        healed(datasheet, self.0)
    }

    fn ready(&self, trigger: &EffectStage) -> (ready: bool) {
        matches!(trigger, EffectStage::Healing)
    }

    /// Adds the amount to the current health of every health on the data
    /// sheet. The sums stop at the bounds of `i32`.
    fn update(&self, datasheet: &mut Document<V>) {
        match datasheet.0.get_map_mut::<Health>() {
            Some(healths) => heal_all(healths, self.0),
            None => {},
        }
    }
}

/// Going through the stages of [`stage_order`] one after the other is a tick.
proof fn lemma_stages_in_order_are_a_tick<V, E: Effect<V>>(
    effects: Seq<(E, EffectDuration)>,
    now: u64,
    datasheet: Registry<V>,
)
    ensures
        after_stages(effects, stage_order(), now, datasheet) == after_tick(effects, now, datasheet),
{
    let all = stage_order();
    let three = all.drop_last();
    let two = three.drop_last();
    let one = two.drop_last();
    assert(after_stages(effects, one.drop_last(), now, datasheet) == datasheet);
    assert(after_stages(effects, one, now, datasheet) == after_stage(
        effects,
        EffectStage::BaseValues,
        now,
        datasheet,
    ));
    assert(after_stages(effects, three, now, datasheet) == after_stage(
        effects,
        EffectStage::MultiplicativeModifiers,
        now,
        after_stages(effects, two, now, datasheet),
    ));
}

/// A stage, effect by effect: without effects it leaves the data sheet as it
/// is, and the last effect of the list works on what the effects before it
/// have left, if it is ready for the stage and has not expired.
pub proof fn lemma_stage_effect_by_effect<V, E: Effect<V>>(
    effects: Seq<(E, EffectDuration)>,
    last: (E, EffectDuration),
    stage: EffectStage,
    now: u64,
    datasheet: Registry<V>,
)
    ensures
        after_stage(Seq::<(E, EffectDuration)>::empty(), stage, now, datasheet) == datasheet,
        after_stage(effects.push(last), stage, now, datasheet) == (if !last.1.expired_at(now)
            && last.0.is_ready(stage) {
            last.0.applied(after_stage(effects, stage, now, datasheet))
        } else {
            after_stage(effects, stage, now, datasheet)
        }),
{
    assert(effects.push(last).drop_last() =~= effects);
}

/// A stage with two effects: the first of the list, then the second, each
/// only if it is ready for the stage and has not expired.
proof fn lemma_stage_of_two<V, E: Effect<V>>(
    first: (E, EffectDuration),
    second: (E, EffectDuration),
    stage: EffectStage,
    now: u64,
    datasheet: Registry<V>,
)
    ensures
        after_stage(seq![first, second], stage, now, datasheet) == ({
            let earlier = if !first.1.expired_at(now) && first.0.is_ready(stage) {
                first.0.applied(datasheet)
            } else {
                datasheet
            };
            if !second.1.expired_at(now) && second.0.is_ready(stage) {
                second.0.applied(earlier)
            } else {
                earlier
            }
        }),
{
    let none = Seq::<(E, EffectDuration)>::empty();
    assert(seq![first, second] =~= none.push(first).push(second));
    lemma_stage_effect_by_effect(none, first, stage, now, datasheet);
    lemma_stage_effect_by_effect(none.push(first), second, stage, now, datasheet);
}

/// The stage decides when an effect is applied, not its place in the list:
/// an effect of the base values stage is applied before an effect of the
/// additive stage, whichever stands first, so that what the one sets is
/// what the other adds to.
pub proof fn lemma_base_values_before_additive<V, E: Effect<V>>(
    base: (E, EffectDuration),
    additive: (E, EffectDuration),
    now: u64,
    datasheet: Registry<V>,
)
    requires
        forall|stage: EffectStage| #[trigger] base.0.is_ready(stage) <==> stage is BaseValues,
        forall|stage: EffectStage|
            #[trigger] additive.0.is_ready(stage) <==> stage is AdditiveModifiers,
        !base.1.expired_at(now),
        !additive.1.expired_at(now),
    ensures
        after_tick(seq![base, additive], now, datasheet) == additive.0.applied(
            base.0.applied(datasheet),
        ),
        after_tick(seq![additive, base], now, datasheet) == additive.0.applied(
            base.0.applied(datasheet),
        ),
{
    let set = base.0.applied(datasheet);
    let sum = additive.0.applied(set);
    lemma_stage_of_two(base, additive, EffectStage::BaseValues, now, datasheet);
    lemma_stage_of_two(base, additive, EffectStage::AdditiveModifiers, now, set);
    lemma_stage_of_two(base, additive, EffectStage::MultiplicativeModifiers, now, sum);
    lemma_stage_of_two(base, additive, EffectStage::Healing, now, sum);
    lemma_stage_of_two(additive, base, EffectStage::BaseValues, now, datasheet);
    lemma_stage_of_two(additive, base, EffectStage::AdditiveModifiers, now, set);
    lemma_stage_of_two(additive, base, EffectStage::MultiplicativeModifiers, now, sum);
    lemma_stage_of_two(additive, base, EffectStage::Healing, now, sum);
}

/// With an effect of the base values stage that sets a stat to `x` and an
/// effect of the additive stage that adds `y` to it, the stat is `x + y`
/// after one tick, whatever it was and whichever effect stands first.
pub proof fn lemma_stat_is_base_plus_modifier<V, E: Effect<V>>(
    base: (E, EffectDuration),
    additive: (E, EffectDuration),
    now: u64,
    datasheet: Registry<V>,
    stat: spec_fn(Registry<V>) -> int,
    x: int,
    y: int,
)
    requires
        forall|stage: EffectStage| #[trigger] base.0.is_ready(stage) <==> stage is BaseValues,
        forall|stage: EffectStage|
            #[trigger] additive.0.is_ready(stage) <==> stage is AdditiveModifiers,
        !base.1.expired_at(now),
        !additive.1.expired_at(now),
        forall|sheet: Registry<V>| stat(#[trigger] base.0.applied(sheet)) == x,
        forall|sheet: Registry<V>|
            stat(#[trigger] additive.0.applied(sheet)) == stat(sheet) + y,
    ensures
        stat(after_tick(seq![base, additive], now, datasheet)) == x + y,
        stat(after_tick(seq![additive, base], now, datasheet)) == x + y,
{
    lemma_base_values_before_additive(base, additive, now, datasheet);
}

/// The effects left, effect by effect: of no effects none is left, and the
/// last effect of the list stays behind the others that are left unless it
/// has expired.
pub proof fn lemma_unexpired_effect_by_effect<E>(
    effects: Seq<(E, EffectDuration)>,
    last: (E, EffectDuration),
    now: u64,
)
    ensures
        unexpired(Seq::<(E, EffectDuration)>::empty(), now) == Seq::<(E, EffectDuration)>::empty(),
        unexpired(effects.push(last), now) == (if last.1.expired_at(now) {
            unexpired(effects, now)
        } else {
            unexpired(effects, now).push(last)
        }),
{
    reveal(Seq::filter);
    assert(effects.push(last).drop_last() =~= effects);
}

/// An effect that has expired does nothing in any stage: a stage does to the
/// data sheet what it does with the expired effects removed.
pub proof fn lemma_expired_effects_are_skipped<V, E: Effect<V>>(
    effects: Seq<(E, EffectDuration)>,
    stage: EffectStage,
    now: u64,
    datasheet: Registry<V>,
)
    ensures
        after_stage(effects, stage, now, datasheet) == after_stage(
            unexpired(effects, now),
            stage,
            now,
            datasheet,
        ),
    decreases effects.len(),
{
    reveal(Seq::filter);
    if effects.len() > 0 {
        lemma_expired_effects_are_skipped(effects.drop_last(), stage, now, datasheet);
        if !effects.last().1.expired_at(now) {
            let kept = unexpired(effects.drop_last(), now).push(effects.last());
            assert(kept.drop_last() =~= unexpired(effects.drop_last(), now));
        }
    }
}

/// Removing the expired effects changes nothing of what a tick at that time,
/// or at any time after it, does to the data sheet.
pub proof fn lemma_pruning_changes_no_tick<V, E: Effect<V>>(
    effects: Seq<(E, EffectDuration)>,
    pruned_at: u64,
    now: u64,
    datasheet: Registry<V>,
)
    requires
        pruned_at <= now,
    ensures
        after_tick(unexpired(effects, pruned_at), now, datasheet) == after_tick(
            effects,
            now,
            datasheet,
        ),
{
    let pruned = unexpired(effects, pruned_at);
    lemma_still_unexpired(effects, pruned_at, now);
    let one = after_stage(effects, EffectStage::BaseValues, now, datasheet);
    let two = after_stage(effects, EffectStage::AdditiveModifiers, now, one);
    let three = after_stage(effects, EffectStage::MultiplicativeModifiers, now, two);
    lemma_expired_effects_are_skipped(effects, EffectStage::BaseValues, now, datasheet);
    lemma_expired_effects_are_skipped(pruned, EffectStage::BaseValues, now, datasheet);
    lemma_expired_effects_are_skipped(effects, EffectStage::AdditiveModifiers, now, one);
    lemma_expired_effects_are_skipped(pruned, EffectStage::AdditiveModifiers, now, one);
    lemma_expired_effects_are_skipped(effects, EffectStage::MultiplicativeModifiers, now, two);
    lemma_expired_effects_are_skipped(pruned, EffectStage::MultiplicativeModifiers, now, two);
    lemma_expired_effects_are_skipped(effects, EffectStage::Healing, now, three);
    lemma_expired_effects_are_skipped(pruned, EffectStage::Healing, now, three);
}

/// What has not expired later had not expired earlier: the effects left at
/// `later` are those left at `later` of the effects left at `earlier`.
proof fn lemma_still_unexpired<E>(
    effects: Seq<(E, EffectDuration)>,
    earlier: u64,
    later: u64,
)
    requires
        earlier <= later,
    ensures
        unexpired(unexpired(effects, earlier), later) == unexpired(effects, later),
    decreases effects.len(),
{
    reveal(Seq::filter);
    if effects.len() > 0 {
        lemma_still_unexpired(effects.drop_last(), earlier, later);
        if !effects.last().1.expired_at(earlier) {
            let kept = unexpired(effects.drop_last(), earlier).push(effects.last());
            assert(kept.drop_last() =~= unexpired(effects.drop_last(), earlier));
        }
    }
}

} // verus!
