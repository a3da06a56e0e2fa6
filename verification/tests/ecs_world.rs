use xastge::ecs::archetype::{ArchetypeMask, Column, EntityId};
use xastge::ecs::component::{
    Component, ComponentId, ComponentKind, ComponentLayout, ComponentRegistry, ErasedComponent,
};
use xastge::ecs::world::{Access, ComponentWrite, World};

#[derive(Debug, Clone, Copy, PartialEq)]
struct Position {
    x: i32,
    y: i32,
}

#[derive(Debug, Clone, Copy, PartialEq)]
struct Velocity {
    dx: i16,
}

impl Component for Position {
    fn spec_component_id() -> ComponentId {
        unreachable!()
    }
    fn spec_layout() -> ComponentLayout {
        unreachable!()
    }
    fn spec_kind() -> ComponentKind {
        unreachable!()
    }
    fn spec_bytes(&self) -> vstd::seq::Seq<u8> {
        unreachable!()
    }
    fn spec_from_bytes(_bytes: vstd::seq::Seq<u8>) -> Self {
        unreachable!()
    }
    fn lemma_bytes_round_trip(&self) {}
    fn component_id() -> ComponentId {
        ComponentId(1)
    }
    fn id(&self) -> ComponentId {
        ComponentId(1)
    }
    fn layout(&self) -> ComponentLayout {
        ComponentLayout { size: 8, align: 4 }
    }
    fn kind(&self) -> ComponentKind {
        ComponentKind::Pod
    }
    fn to_bytes(&self) -> Vec<u8> {
        let mut v = self.x.to_le_bytes().to_vec();
        v.extend_from_slice(&self.y.to_le_bytes());
        v
    }
    fn from_bytes(bytes: &[u8]) -> Self {
        Position {
            x: i32::from_le_bytes([bytes[0], bytes[1], bytes[2], bytes[3]]),
            y: i32::from_le_bytes([bytes[4], bytes[5], bytes[6], bytes[7]]),
        }
    }
}

impl Component for Velocity {
    fn spec_component_id() -> ComponentId {
        unreachable!()
    }
    fn spec_layout() -> ComponentLayout {
        unreachable!()
    }
    fn spec_kind() -> ComponentKind {
        unreachable!()
    }
    fn spec_bytes(&self) -> vstd::seq::Seq<u8> {
        unreachable!()
    }
    fn spec_from_bytes(_bytes: vstd::seq::Seq<u8>) -> Self {
        unreachable!()
    }
    fn lemma_bytes_round_trip(&self) {}
    fn component_id() -> ComponentId {
        ComponentId(2)
    }
    fn id(&self) -> ComponentId {
        ComponentId(2)
    }
    fn layout(&self) -> ComponentLayout {
        ComponentLayout { size: 2, align: 2 }
    }
    fn kind(&self) -> ComponentKind {
        ComponentKind::Pod
    }
    fn to_bytes(&self) -> Vec<u8> {
        self.dx.to_le_bytes().to_vec()
    }
    fn from_bytes(bytes: &[u8]) -> Self {
        Velocity { dx: i16::from_le_bytes([bytes[0], bytes[1]]) }
    }
}

fn erased(id: u32, data: &[u8]) -> ErasedComponent {
    ErasedComponent {
        id: ComponentId(id),
        data: data.to_vec(),
        layout: ComponentLayout { size: data.len(), align: 1 },
        kind: ComponentKind::Pod,
    }
}

#[test]
fn spawned_entities_get_sequential_ids() {
    let mut world = World::new();
    let a = world.spawn_erased(&[erased(3, &[1, 2])]);
    let b = world.spawn_erased(&[erased(4, &[5])]);
    let c = world.spawn_erased(&[erased(3, &[7, 8])]);
    assert_eq!(a, EntityId(0));
    assert_eq!(b, EntityId(1));
    assert_eq!(c, EntityId(2));
}

#[test]
fn spawn_then_query_reads_back_components() {
    let mut world = World::new();
    let e = world.spawn_erased(&[erased(3, &[1, 2]), erased(4, &[9, 9, 9])]);
    let rows = world.query_erased(&[ComponentId(4), ComponentId(3)]);
    assert_eq!(rows.len(), 1);
    assert_eq!(rows[0].entity, e);
    assert_eq!(rows[0].components, vec![vec![9, 9, 9], vec![1, 2]]);
}

#[test]
fn query_visits_archetypes_in_creation_order() {
    let mut world = World::new();
    let a = world.spawn_erased(&[erased(3, &[1])]);
    let b = world.spawn_erased(&[erased(3, &[2]), erased(5, &[0])]);
    let c = world.spawn_erased(&[erased(3, &[3])]);
    let rows = world.query_erased(&[ComponentId(3)]);
    let order: Vec<EntityId> = rows.iter().map(|r| r.entity).collect();
    assert_eq!(order, vec![a, c, b]);
    assert_eq!(rows[1].components, vec![vec![3]]);
    // only the second archetype holds component 5
    let rows = world.query_erased(&[ComponentId(5)]);
    assert_eq!(rows.len(), 1);
    assert_eq!(rows[0].entity, b);
}

#[test]
fn query_of_missing_component_is_empty() {
    let mut world = World::new();
    world.spawn_erased(&[erased(3, &[1])]);
    assert!(world.query_erased(&[ComponentId(7)]).is_empty());
}

#[test]
fn apply_overwrites_one_component() {
    let mut world = World::new();
    let e0 = world.spawn_erased(&[erased(3, &[1, 2]), erased(4, &[3])]);
    let e1 = world.spawn_erased(&[erased(3, &[5, 6]), erased(4, &[7])]);
    world.apply(&ComponentWrite { entity: e1, component_id: ComponentId(3), bytes: vec![42, 43] });
    let rows = world.query_erased(&[ComponentId(3), ComponentId(4)]);
    assert_eq!(rows[0].entity, e0);
    assert_eq!(rows[0].components, vec![vec![1, 2], vec![3]]);
    assert_eq!(rows[1].entity, e1);
    assert_eq!(rows[1].components, vec![vec![42, 43], vec![7]]);
}

#[test]
fn subset_spawn_joins_wider_archetype_and_reads_zero_slots() {
    let mut world = World::new();
    let wide = world.spawn_erased(&[erased(3, &[1]), erased(4, &[2])]);
    let narrow = world.spawn_erased(&[erased(3, &[5])]);
    let rows = world.query_erased(&[ComponentId(3), ComponentId(4)]);
    assert_eq!(rows.len(), 2);
    assert_eq!(rows[0].entity, wide);
    assert_eq!(rows[1].entity, narrow);
    assert_eq!(rows[1].components, vec![vec![5], vec![0]]);
}

#[test]
fn typed_spawn_and_query_round_trip() {
    let mut world = World::new();
    let p = world.spawn((Position { x: 1, y: 2 },));
    let e = world.spawn((Position { x: -3, y: 40 }, Velocity { dx: 7 }));
    let both: Vec<(Position, Velocity)> = world.query::<(Position, Velocity)>();
    assert_eq!(both, vec![(Position { x: -3, y: 40 }, Velocity { dx: 7 })]);
    let positions = world.query::<(Position,)>();
    assert_eq!(positions, vec![(Position { x: 1, y: 2 },), (Position { x: -3, y: 40 },)]);
    let mut seen = Vec::new();
    world.for_each::<(Position,), _>(|entity, (pos,)| seen.push((entity, pos.x)));
    assert_eq!(seen, vec![(p, 1), (e, -3)]);
}

#[test]
fn typed_subset_spawn_shares_wider_archetype() {
    let mut world = World::new();
    world.spawn((Position { x: -3, y: 40 }, Velocity { dx: 7 }));
    world.spawn((Position { x: 1, y: 2 },));
    // the second entity sits in the first archetype, its velocity slot unwritten
    let both: Vec<(Position, Velocity)> = world.query::<(Position, Velocity)>();
    assert_eq!(
        both,
        vec![(Position { x: -3, y: 40 }, Velocity { dx: 7 }), (Position { x: 1, y: 2 }, Velocity { dx: 0 })]
    );
}

#[test]
fn component_write_new_holds_bytes() {
    let w = ComponentWrite::new(EntityId(5), Velocity { dx: 0x0102 });
    assert_eq!(w.entity, EntityId(5));
    assert_eq!(w.component_id, ComponentId(2));
    assert_eq!(w.bytes, vec![0x02, 0x01]);
}

#[test]
fn typed_write_then_query() {
    let mut world = World::new();
    let e = world.spawn((Position { x: 0, y: 0 },));
    world.apply(&ComponentWrite::new(e, Position { x: 9, y: -9 }));
    assert_eq!(world.query::<(Position,)>(), vec![(Position { x: 9, y: -9 },)]);
}

#[test]
fn mask_holds_exactly_its_ids() {
    let m = ArchetypeMask::from_ids(&[ComponentId(0), ComponentId(63), ComponentId(64), ComponentId(255)]);
    let sub = ArchetypeMask::from_ids(&[ComponentId(255), ComponentId(0)]);
    let other = ArchetypeMask::from_ids(&[ComponentId(1)]);
    let empty = ArchetypeMask::from_ids(&[]);
    assert!(m.contains(&sub));
    assert!(!sub.contains(&m));
    assert!(!m.contains(&other));
    assert!(m.contains(&empty));
    assert!(empty.contains(&empty));
}

#[test]
fn column_grows_by_doubling() {
    let mut col = Column::new(1, ComponentId(3), ComponentLayout { size: 2, align: 1 }, ComponentKind::Pod);
    col.push_erased(&erased(3, &[1, 2]));
    col.push_erased(&erased(3, &[3, 4]));
    col.push_erased(&erased(3, &[5, 6]));
    assert_eq!(col.as_ptr(), &[1, 2, 3, 4, 5, 6]);
    col.as_ptr_mut()[0] = 9;
    assert_eq!(col.as_ptr()[0], 9);
    assert_eq!(col.component_meta().id, ComponentId(3));
}

#[test]
fn column_push_copies_only_row_size() {
    let mut col = Column::new(4, ComponentId(3), ComponentLayout { size: 2, align: 1 }, ComponentKind::Pod);
    col.push_erased(&erased(3, &[1, 2, 3, 4]));
    assert_eq!(col.as_ptr(), &[1, 2]);
}

#[test]
fn registry_gives_one_id_per_type() {
    let mut reg = ComponentRegistry::new();
    let a = xastge::ecs::component::component_id::<Position>(&mut reg);
    let b = xastge::ecs::component::component_id::<Velocity>(&mut reg);
    let a2 = xastge::ecs::component::component_id::<Position>(&mut reg);
    assert_eq!(a, ComponentId(1));
    assert_eq!(b, ComponentId(2));
    assert_eq!(a2, a);
}

#[test]
fn access_query_tags_each_slot() {
    let mut world = World::new();
    let a = world.spawn_erased(&[erased(3, &[1, 2]), erased(4, &[9])]);
    let b = world.spawn_erased(&[erased(5, &[8])]);
    let rows = world.query_erased_for_each(&[(ComponentId(4), Access::Write), (ComponentId(3), Access::Read)]);
    assert_eq!(rows.len(), 1);
    assert_eq!(rows[0].entity, a);
    assert_eq!(rows[0].components, vec![(vec![9], Access::Write), (vec![1, 2], Access::Read)]);
    let only5 = world.query_erased_for_each(&[(ComponentId(5), Access::Read)]);
    assert_eq!(only5.len(), 1);
    assert_eq!(only5[0].entity, b);
    assert_eq!(only5[0].components, vec![(vec![8], Access::Read)]);
}
