use std::collections::HashMap;
use tabletop::data::{AbilityScore, Health, SheetData, Strength, Wisdom};
use tabletop::entity_store::{get_future_component, Action, ComponentContainer, EntityStore};

fn strength(score: i32) -> Strength {
    Strength(AbilityScore { base_score: score, effective_score: score, modifier: 0 })
}

#[test]
fn read_of_a_type_never_set_is_empty_every_time() {
    let world: EntityStore<SheetData> = EntityStore::new();
    for entity in [0usize, 1, 17, usize::MAX] {
        assert_eq!(world.get_component::<Health>(entity), None);
        assert_eq!(world.get_component::<Health>(entity), None);
        assert_eq!(world.get_component::<Strength>(entity), None);
    }
    assert!(world.get_map::<Health>().is_none());
}

#[test]
fn read_of_a_type_never_set_is_empty_beside_other_types() {
    let mut world: EntityStore<SheetData> = EntityStore::new();
    world.set_component(0, Health(3));
    assert_eq!(world.get_component::<Strength>(0), None);
    assert_eq!(world.get_component::<Strength>(0), None);
    assert!(world.get_map::<Strength>().is_none());
}

#[test]
fn component_set_is_component_read() {
    let mut world: EntityStore<SheetData> = EntityStore::new();
    world.set_component(4, Health(12));
    world.set_component(4, strength(15));
    world.set_component(5, Health(8));
    assert_eq!(world.get_component::<Health>(4), Some(&Health(12)));
    assert_eq!(world.get_component::<Strength>(4), Some(&strength(15)));
    assert_eq!(world.get_component::<Health>(5), Some(&Health(8)));
    assert_eq!(world.get_component::<Strength>(5), None);
    assert_eq!(world.get_component::<Health>(6), None);
}

#[test]
fn later_set_replaces_earlier_set() {
    let mut world: EntityStore<SheetData> = EntityStore::new();
    world.set_component(1, Health(1));
    world.set_component(1, Health(2));
    assert_eq!(world.get_component::<Health>(1), Some(&Health(2)));
    assert_eq!(world.get_map::<Health>().unwrap().len(), 1);
}

#[test]
fn any_entity_id_is_accepted() {
    let mut world: EntityStore<SheetData> = EntityStore::new();
    world.set_component(usize::MAX, Health(9));
    world.set_component(0, Health(1));
    assert_eq!(world.get_component::<Health>(usize::MAX), Some(&Health(9)));
    assert_eq!(world.get_component::<Health>(0), Some(&Health(1)));
    assert_eq!(world.get_component::<Health>(usize::MAX - 1), None);
}

#[test]
fn cleared_component_reads_empty_and_can_be_set_again() {
    let mut world: EntityStore<SheetData> = EntityStore::new();
    world.set_component(2, Health(30));
    world.clear_component::<Health>(2);
    assert_eq!(world.get_component::<Health>(2), None);
    world.set_component(2, Health(31));
    assert_eq!(world.get_component::<Health>(2), Some(&Health(31)));
}

#[test]
fn set_none_leaves_a_tombstone() {
    let mut world: EntityStore<SheetData> = EntityStore::new();
    world.set_component(2, Health(30));
    world.set_component(3, Health(40));
    world.set_none::<Health>(2);
    let healths = world.get_map::<Health>().unwrap();
    assert_eq!(healths.get(&2), Some(&None));
    assert_eq!(healths.get(&3), Some(&Some(SheetData::Health(Health(40)))));
    assert_eq!(world.get_component::<Health>(2), None);
    assert_eq!(world.get_component::<Health>(3), Some(&Health(40)));
}

#[test]
fn set_none_of_an_entity_never_set_leaves_a_tombstone_too() {
    let mut world: EntityStore<SheetData> = EntityStore::new();
    world.set_component(2, Health(30));
    world.set_none::<Health>(9);
    assert_eq!(world.get_map::<Health>().unwrap().get(&9), Some(&None));
    assert_eq!(world.get_component::<Health>(9), None);
}

#[test]
fn set_none_without_a_container_does_nothing() {
    let mut world: EntityStore<SheetData> = EntityStore::new();
    world.set_component(2, strength(10));
    world.set_none::<Health>(2);
    world.clear_component::<Health>(2);
    assert!(world.get_map::<Health>().is_none());
    assert_eq!(world.get_component::<Strength>(2), Some(&strength(10)));
}

#[test]
fn clear_entity_leaves_a_tombstone_in_every_container() {
    let mut world: EntityStore<SheetData> = EntityStore::new();
    world.set_component(1, Health(5));
    world.set_component(1, strength(11));
    world.set_component(2, Health(6));
    world.set_component(2, Wisdom(AbilityScore::default()));
    world.clear_entity(1);
    assert_eq!(world.get_component::<Health>(1), None);
    assert_eq!(world.get_component::<Strength>(1), None);
    assert_eq!(world.get_component::<Wisdom>(1), None);
    assert_eq!(world.get_map::<Health>().unwrap().get(&1), Some(&None));
    assert_eq!(world.get_map::<Strength>().unwrap().get(&1), Some(&None));
    assert_eq!(world.get_map::<Wisdom>().unwrap().get(&1), Some(&None));
    assert_eq!(world.get_component::<Health>(2), Some(&Health(6)));
    assert_eq!(world.get_component::<Wisdom>(2), Some(&Wisdom(AbilityScore::default())));
    world.set_component(1, Health(7));
    assert_eq!(world.get_component::<Health>(1), Some(&Health(7)));
}

#[test]
fn set_entity_none_does_what_clear_entity_does() {
    let mut world: EntityStore<SheetData> = EntityStore::new();
    world.set_component(1, Health(5));
    world.set_component(1, strength(11));
    world.set_component(2, strength(12));
    world.set_entity_none(1);
    assert_eq!(world.get_component::<Health>(1), None);
    assert_eq!(world.get_component::<Strength>(1), None);
    assert_eq!(world.get_component::<Strength>(2), Some(&strength(12)));
    assert_eq!(world.get_map::<Health>().unwrap().get(&1), Some(&None));
}

#[test]
fn clear_entity_of_an_empty_store_registers_nothing() {
    let mut world: EntityStore<SheetData> = EntityStore::new();
    world.clear_entity(3);
    assert!(world.get_map::<Health>().is_none());
    assert_eq!(world.get_component::<Health>(3), None);
}

#[test]
fn get_map_gives_every_entity_of_the_type() {
    let mut world: EntityStore<SheetData> = EntityStore::new();
    world.set_component(1, Health(5));
    world.set_component(8, Health(6));
    world.set_component(8, strength(3));
    let healths = world.get_map::<Health>().unwrap();
    let mut entities: Vec<usize> = healths.keys().copied().collect();
    entities.sort();
    assert_eq!(entities, vec![1, 8]);
    assert_eq!(world.get_map::<Strength>().unwrap().len(), 1);
}

#[test]
fn changes_through_get_map_mut_are_read_from_the_store() {
    let mut world: EntityStore<SheetData> = EntityStore::new();
    world.set_component(1, Health(5));
    world.set_component(1, strength(3));
    {
        let healths = world.get_map_mut::<Health>().unwrap();
        healths.insert(1, Some(SheetData::Health(Health(50))));
        healths.insert(2, Some(SheetData::Health(Health(60))));
    }
    assert_eq!(world.get_component::<Health>(1), Some(&Health(50)));
    assert_eq!(world.get_component::<Health>(2), Some(&Health(60)));
    assert_eq!(world.get_component::<Strength>(1), Some(&strength(3)));
    assert!(world.get_map_mut::<Wisdom>().is_none());
}

#[test]
fn commit_makes_staged_components_readable_and_keeps_the_rest() {
    let mut world: EntityStore<SheetData> = EntityStore::new();
    world.set_component(1, Health(5));
    world.set_component(2, Health(6));
    world.set_component(1, strength(10));
    let mut action: Action<SheetData> = Action::new();
    action.set_component(1, Health(50));
    action.set_component(3, Health(70));
    action.set_component(1, Wisdom(AbilityScore::default()));
    world.commit(&mut action);
    assert_eq!(world.get_component::<Health>(1), Some(&Health(50)));
    assert_eq!(world.get_component::<Health>(3), Some(&Health(70)));
    assert_eq!(world.get_component::<Wisdom>(1), Some(&Wisdom(AbilityScore::default())));
    assert_eq!(world.get_component::<Health>(2), Some(&Health(6)));
    assert_eq!(world.get_component::<Strength>(1), Some(&strength(10)));
    assert_eq!(world.get_component::<Wisdom>(2), None);
}

#[test]
fn commit_adopts_a_container_that_only_the_action_has() {
    let mut world: EntityStore<SheetData> = EntityStore::new();
    let mut action: Action<SheetData> = Action::new();
    action.set_component(4, strength(14));
    action.set_component(5, strength(15));
    assert!(world.get_map::<Strength>().is_none());
    world.commit(&mut action);
    assert_eq!(world.get_component::<Strength>(4), Some(&strength(14)));
    assert_eq!(world.get_component::<Strength>(5), Some(&strength(15)));
    assert_eq!(world.get_map::<Strength>().unwrap().len(), 2);
}

#[test]
fn commit_leaves_the_action_empty() {
    let mut world: EntityStore<SheetData> = EntityStore::new();
    let mut action: Action<SheetData> = Action::new();
    action.set_component(4, strength(14));
    action.set_component(4, Health(1));
    world.commit(&mut action);
    assert_eq!(action.insertions.get_component::<Strength>(4), None);
    assert_eq!(action.insertions.get_component::<Health>(4), None);
    assert!(action.insertions.get_map::<Strength>().unwrap().is_empty());
    assert!(action.insertions.get_map::<Health>().unwrap().is_empty());
    world.set_component(4, Health(2));
    world.commit(&mut action);
    assert_eq!(world.get_component::<Health>(4), Some(&Health(2)));
}

#[test]
fn commit_of_an_empty_action_changes_nothing() {
    let mut world: EntityStore<SheetData> = EntityStore::new();
    world.set_component(1, Health(5));
    let mut action: Action<SheetData> = Action::new();
    world.commit(&mut action);
    assert_eq!(world.get_component::<Health>(1), Some(&Health(5)));
    assert_eq!(world.get_map::<Health>().unwrap().len(), 1);
    assert!(world.get_map::<Strength>().is_none());
}

#[test]
fn an_action_does_not_touch_the_store_before_commit() {
    let mut world: EntityStore<SheetData> = EntityStore::new();
    world.set_component(1, Health(5));
    {
        let mut action: Action<SheetData> = Action::new();
        action.set_component(1, Health(50));
        action.set_component(2, Health(60));
        assert_eq!(world.get_component::<Health>(1), Some(&Health(5)));
        assert_eq!(world.get_component::<Health>(2), None);
    }
    assert_eq!(world.get_component::<Health>(1), Some(&Health(5)));
    assert_eq!(world.get_component::<Health>(2), None);
}

#[test]
fn later_staged_write_replaces_earlier_staged_write() {
    let mut world: EntityStore<SheetData> = EntityStore::new();
    let mut action: Action<SheetData> = Action::new();
    action.set_component(1, Health(1));
    action.insertions.set_component(1, Health(2));
    assert_eq!(get_future_component::<SheetData, Health>(1, &world, &action), Some(&Health(2)));
    world.commit(&mut action);
    assert_eq!(world.get_component::<Health>(1), Some(&Health(2)));
}

#[test]
fn future_read_prefers_the_staged_component() {
    let mut world: EntityStore<SheetData> = EntityStore::new();
    world.set_component(1, Health(5));
    world.set_component(2, Health(6));
    let mut action: Action<SheetData> = Action::new();
    action.set_component(1, Health(50));
    action.set_component(3, Health(70));
    assert_eq!(get_future_component::<SheetData, Health>(1, &world, &action), Some(&Health(50)));
    assert_eq!(get_future_component::<SheetData, Health>(3, &world, &action), Some(&Health(70)));
    assert_eq!(get_future_component::<SheetData, Health>(2, &world, &action), Some(&Health(6)));
    assert_eq!(get_future_component::<SheetData, Health>(4, &world, &action), None);
    assert_eq!(get_future_component::<SheetData, Strength>(1, &world, &action), None);
}

#[test]
fn future_read_changes_neither_store_nor_action() {
    let mut world: EntityStore<SheetData> = EntityStore::new();
    world.set_component(1, Health(5));
    let mut action: Action<SheetData> = Action::new();
    action.set_component(2, Health(50));
    let first = get_future_component::<SheetData, Health>(1, &mut world, &mut action).copied();
    let second = get_future_component::<SheetData, Health>(1, &mut world, &mut action).copied();
    assert_eq!(first, Some(Health(5)));
    assert_eq!(first, second);
    assert_eq!(world.get_component::<Health>(1), Some(&Health(5)));
    assert_eq!(world.get_component::<Health>(2), None);
    assert_eq!(action.insertions.get_component::<Health>(2), Some(&Health(50)));
    assert_eq!(action.insertions.get_component::<Health>(1), None);
}

#[test]
fn staged_tombstone_hides_after_commit_but_not_in_the_future_read() {
    let mut world: EntityStore<SheetData> = EntityStore::new();
    world.set_component(1, Health(5));
    let mut action: Action<SheetData> = Action::new();
    action.set_component(2, Health(6));
    action.insertions.set_none::<Health>(1);
    assert_eq!(get_future_component::<SheetData, Health>(1, &world, &action), Some(&Health(5)));
    world.commit(&mut action);
    assert_eq!(world.get_component::<Health>(1), None);
    assert_eq!(world.get_component::<Health>(2), Some(&Health(6)));
}

#[test]
fn container_set_none_records_a_tombstone() {
    let mut healths: HashMap<usize, Option<i32>> = HashMap::new();
    healths.insert(1, Some(4));
    ComponentContainer::set_none(&mut healths, 1);
    ComponentContainer::set_none(&mut healths, 2);
    assert_eq!(healths.get(&1), Some(&None));
    assert_eq!(healths.get(&2), Some(&None));
    assert_eq!(healths.len(), 2);
}

#[test]
fn container_commit_moves_every_entry_and_replaces() {
    let mut live: HashMap<usize, Option<i32>> = HashMap::new();
    live.insert(1, Some(4));
    live.insert(2, Some(5));
    live.insert(3, None);
    let mut staged: HashMap<usize, Option<i32>> = HashMap::new();
    staged.insert(2, Some(50));
    staged.insert(3, Some(60));
    staged.insert(4, None);
    ComponentContainer::commit(&mut live, &mut staged);
    assert!(staged.is_empty());
    assert_eq!(live.len(), 4);
    assert_eq!(live.get(&1), Some(&Some(4)));
    assert_eq!(live.get(&2), Some(&Some(50)));
    assert_eq!(live.get(&3), Some(&Some(60)));
    assert_eq!(live.get(&4), Some(&None));
}
