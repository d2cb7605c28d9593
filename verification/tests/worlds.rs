use specs::{Builder, Component, Join, VecStorage, WorldExt};
use tabletop::data::{DataSheetComponent, SheetData, Strength};
use tabletop::data_character::Health;
use tabletop::document::Document;
use tabletop::effects::{apply_effects, EffectStorage, FastHealing};
use tabletop::time::{EffectDuration, WorldTime};

fn tick(world: &mut hecs::World, passed: u64) {
    let time = WorldTime { passed };
    let sheets = world.query_mut::<(&mut Document<Health>, &mut EffectStorage<FastHealing>)>();
    for (document, effects) in sheets {
        apply_effects(document, effects, &time);
    }
}

fn document_with(current_health: i32) -> Document<Health> {
    let mut document: Document<Health> = Document::new();
    document.0.set_component(0, Health::new(current_health, 100));
    document
}

fn health_in(world: &hecs::World, entity: hecs::Entity) -> Option<i32> {
    match world.get::<&Document<Health>>(entity) {
        Ok(document) => document.0.get_component::<Health>(0).map(|health| health.current_health),
        Err(_) => None,
    }
}

fn effects_left(world: &hecs::World, entity: hecs::Entity) -> Option<usize> {
    match world.get::<&EffectStorage<FastHealing>>(entity) {
        Ok(effects) => Some(effects.effects.len()),
        Err(_) => None,
    }
}

#[test]
fn sheets_in_a_hecs_world_are_ticked_in_place() {
    let mut world = hecs::World::new();
    let window = EffectDuration::Seconds { start: 0, duration: 5 };
    let healed = world.spawn((document_with(10), EffectStorage::new().with(FastHealing(3), window)));
    let steady = world.spawn((document_with(20), EffectStorage::<FastHealing>::new()));
    let bare = world.spawn((document_with(30),));
    tick(&mut world, 4);
    assert_eq!(health_in(&world, healed), Some(13));
    assert_eq!(health_in(&world, steady), Some(20));
    assert_eq!(health_in(&world, bare), Some(30));
    assert_eq!(effects_left(&world, healed), Some(1));
    tick(&mut world, 6);
    assert_eq!(health_in(&world, healed), Some(13));
    assert_eq!(effects_left(&world, healed), Some(0));
    assert_eq!(effects_left(&world, steady), Some(0));
    assert_eq!(effects_left(&world, bare), None);
}

struct Sheet(DataSheetComponent<SheetData>);

impl Component for Sheet {
    type Storage = VecStorage<Self>;
}

#[test]
fn data_sheet_is_a_component_of_a_specs_world() {
    let mut world = specs::World::new();
    world.register::<Sheet>();
    let sheet = DataSheetComponent::new()
        .with(tabletop::data::Health(12))
        .with(Strength(Default::default()));
    world.create_entity().with(Sheet(sheet)).build();
    world.create_entity().build();
    let sheets = world.read_storage::<Sheet>();
    let healths: Vec<i32> = (&sheets)
        .join()
        .flat_map(|sheet| sheet.0.query::<tabletop::data::Health>())
        .map(|health| health.0)
        .collect();
    assert_eq!(healths, vec![12]);
    assert_eq!(world.entities().join().count(), 2);
}
