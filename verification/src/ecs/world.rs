use vstd::prelude::*;

use crate::ecs::archetype::{
    id_set, ids_in_range, lemma_last_index_of, last_index_of, Archetype, ArchetypeMask, ArchetypeView,
    Column, ColumnView, EntityId, MAX_COMPONENTS,
};
use crate::ecs::component::{Component, ComponentId, ComponentKind, ComponentsBundle, ErasedComponent, ErasedView};

verus! {

/// Kind of access to a component.
#[derive(Debug, Clone, Copy, PartialEq, Eq, Structural, PartialOrd, Ord)]
pub enum Access {
    Read,
    Write,
}

pub const READ: Access = Access::Read;

pub const WRITE: Access = Access::Write;

/// A pending write of one component of one entity.
pub struct ComponentWrite {
    pub entity: EntityId,
    pub component_id: ComponentId,
    pub bytes: Vec<u8>,
}

impl ComponentWrite {
    /// A write of a plain-data component value: its bytes.
    pub fn new<T: Component>(entity: EntityId, component: T) -> (w: ComponentWrite)
        requires
            T::spec_kind() == ComponentKind::Pod,
        ensures
            w.entity == entity,
            w.component_id == T::spec_component_id(),
            w.bytes@ == component.spec_bytes(),
    {
        ComponentWrite { entity, component_id: T::component_id(), bytes: component.to_bytes() }
    }
}

/// Abstract value of a [`ComponentWrite`].
pub struct ComponentWriteView {
    pub entity: EntityId,
    pub component_id: ComponentId,
    pub bytes: Seq<u8>,
}

impl View for ComponentWrite {
    type V = ComponentWriteView;

    open spec fn view(&self) -> ComponentWriteView {
        ComponentWriteView { entity: self.entity, component_id: self.component_id, bytes: self.bytes@ }
    }
}


/// The component ids of `comps`, in order.
pub open spec fn erased_ids(comps: Seq<ErasedView>) -> Seq<ComponentId> {
    comps.map_values(|c: ErasedView| c.id)
}

/// Index of the first archetype whose mask holds every id of `ids`.
pub open spec fn first_match(archetypes: Seq<ArchetypeView>, ids: Seq<ComponentId>) -> Option<int>
    decreases archetypes.len(),
{
    if archetypes.len() == 0 {
        None
    } else {
        match first_match(archetypes.drop_last(), ids) {
            Some(a) => Some(a),
            None => if archetypes.last().has_components(ids) {
                Some(archetypes.len() - 1)
            } else {
                None
            },
        }
    }
}

/// The rows that spawning `comps` into archetype `arch` appends to its
/// column `j`: the first `size` bytes of each component whose id maps to
/// that column, in order.
pub open spec fn rows_for(comps: Seq<ErasedView>, arch: ArchetypeView, j: int) -> Seq<Seq<u8>>
    decreases comps.len(),
{
    if comps.len() == 0 {
        Seq::empty()
    } else {
        let c = comps.last();
        let earlier = rows_for(comps.drop_last(), arch, j);
        if arch.column_index(c.id.0 as nat) == Some(j) {
            earlier.push(c.data.subrange(0, arch.columns[j].size() as int))
        } else {
            earlier
        }
    }
}

/// The column created for a component that opens a new archetype: room for
/// 64 values (unbounded for zero-sized ones) and the component as its row.
pub open spec fn fresh_column(c: ErasedView) -> ColumnView {
    ColumnView {
        meta: c.meta(),
        capacity: if c.layout.size == 0 { usize::MAX } else { 64 },
        len: 1,
        bytes: c.data.subrange(0, c.layout.size as int),
    }
}

/// The archetype created for `comps` when no existing one matches, holding
/// entity `e`.
pub open spec fn fresh_archetype(comps: Seq<ErasedView>, e: EntityId) -> ArchetypeView {
    ArchetypeView {
        mask: id_set(erased_ids(comps)),
        columns: comps.map_values(|c: ErasedView| fresh_column(c)),
        entities: seq![e],
    }
}

/// The entity table after entity `e` is placed at `loc`: grown with empty
/// entries up to `e` when needed.
pub open spec fn located(
    locations: Seq<Option<(usize, usize)>>,
    e: EntityId,
    loc: (usize, usize),
) -> Seq<Option<(usize, usize)>> {
    let n: int = if (e.0 as int) < locations.len() { locations.len() as int } else { e.0 as int + 1 };
    Seq::new(
        n as nat,
        |i: int|
            if i == e.0 {
                Some(loc)
            } else if i < locations.len() {
                locations[i]
            } else {
                None
            },
    )
}

/// A match in a prefix of the archetypes is the first match of all of them.
pub proof fn lemma_first_match_prefix(archetypes: Seq<ArchetypeView>, ids: Seq<ComponentId>, n: int)
    requires
        0 <= n <= archetypes.len(),
        first_match(archetypes.take(n), ids) is Some,
    ensures
        first_match(archetypes, ids) == first_match(archetypes.take(n), ids),
    decreases archetypes.len() - n,
{
    if n < archetypes.len() {
        let t = archetypes.take(n + 1);
        assert(t.drop_last() =~= archetypes.take(n));
        lemma_first_match_prefix(archetypes, ids, n + 1);
    } else {
        assert(archetypes.take(n) =~= archetypes);
    }
}

/// What [`first_match`] returns is an index whose archetype matches, and no
/// earlier one does.
pub proof fn lemma_first_match(archetypes: Seq<ArchetypeView>, ids: Seq<ComponentId>)
    ensures
        first_match(archetypes, ids) matches Some(a) ==> 0 <= a < archetypes.len()
            && archetypes[a].has_components(ids)
            && forall|b: int| 0 <= b < a ==> !(#[trigger] archetypes[b]).has_components(ids),
        first_match(archetypes, ids) is None ==> forall|b: int|
            0 <= b < archetypes.len() ==> !(#[trigger] archetypes[b]).has_components(ids),
    decreases archetypes.len(),
{
    if archetypes.len() > 0 {
        let d = archetypes.drop_last();
        lemma_first_match(d, ids);
        assert(forall|b: int| 0 <= b < d.len() ==> #[trigger] d[b] == archetypes[b]);
        match first_match(d, ids) {
            Some(a) => {
                assert forall|b: int| 0 <= b < a implies !(#[trigger] archetypes[b]).has_components(ids) by {
                    assert(d[b] == archetypes[b]);
                }
            },
            None => {
                assert forall|b: int| 0 <= b < d.len() implies !(#[trigger] archetypes[b]).has_components(ids) by {
                    assert(d[b] == archetypes[b]);
                }
            },
        }
    }
}

/// Appending rows keeps a column's meta data and adds to its length.
pub proof fn lemma_push_all(c: ColumnView, rows: Seq<Seq<u8>>)
    ensures
        c.push_all(rows).meta == c.meta,
        c.push_all(rows).len == c.len + rows.len(),
    decreases rows.len(),
{
    if rows.len() > 0 {
        lemma_push_all(c, rows.drop_last());
    }
}

/// Spawning appends at most one row per component to a column.
pub proof fn lemma_rows_for_len(comps: Seq<ErasedView>, arch: ArchetypeView, j: int)
    ensures
        rows_for(comps, arch, j).len() <= comps.len(),
    decreases comps.len(),
{
    if comps.len() > 0 {
        lemma_rows_for_len(comps.drop_last(), arch, j);
    }
}

/// Spawning keeps the world invariant.
pub proof fn lemma_spawned_wf(v: WorldView, comps: Seq<ErasedView>, e: EntityId, w: WorldView)
    requires
        v.wf(),
        v.can_spawn(),
        v.accepts(comps),
        e.0 == v.next_entity,
        v.spawned(comps, e, w),
    ensures
        w.structure_wf(),
{
    let ids = erased_ids(comps);
    lemma_first_match(v.archetypes, ids);
    let (a0, row0) = match first_match(v.archetypes, ids) {
        Some(a) => (a, v.archetypes[a].entities.len()),
        None => (v.archetypes.len() as int, 0nat),
    };
    assert(w.archetypes.len() >= v.archetypes.len());
    assert(forall|a: int| 0 <= a < v.archetypes.len() && a != a0 ==> #[trigger] w.archetypes[a] == v.archetypes[a]);
    assert(w.archetypes[a0].entities == if a0 < v.archetypes.len() {
        v.archetypes[a0].entities.push(e)
    } else {
        seq![e]
    });
    assert(w.locations == located(v.locations, e, (a0 as usize, row0 as usize)));
    // masks and columns
    assert forall|a: int, i: nat| 0 <= a < w.archetypes.len() implies
        ((#[trigger] w.archetypes[a].mask.contains(i)) <==> w.archetypes[a].column_index(i) is Some) by {
        if a == a0 {
            if a0 < v.archetypes.len() {
                let arch = v.archetypes[a0];
                assert(w.archetypes[a].column_ids() =~= arch.column_ids()) by {
                    assert forall|j: int| 0 <= j < arch.columns.len() implies
                        #[trigger] w.archetypes[a].columns[j].meta == arch.columns[j].meta by {
                        lemma_push_all(arch.columns[j], rows_for(comps, arch, j));
                    }
                }
            } else {
                let fresh = fresh_archetype(comps, e);
                assert(fresh.column_ids() =~= ids);
                lemma_last_index_of(ids, i);
                if fresh.mask.contains(i) {
                    let j = choose|j: int| 0 <= j < ids.len() && ids[j].0 as nat == i;
                    assert(ids[j].0 as nat == i);
                }
            }
        }
    }
    // row counts
    assert forall|a: int, j: int| 0 <= a < w.archetypes.len() && 0 <= j < w.archetypes[a].columns.len() implies
        (#[trigger] w.archetypes[a].columns[j]).len <= MAX_COMPONENTS * w.next_entity by {
        if a == a0 && a0 < v.archetypes.len() {
            let arch = v.archetypes[a0];
            lemma_push_all(arch.columns[j], rows_for(comps, arch, j));
            lemma_rows_for_len(comps, arch, j);
        }
    }
    // entities to locations
    assert forall|a: int, i: int| 0 <= a < w.archetypes.len() && 0 <= i < w.archetypes[a].entities.len() implies {
        let x = #[trigger] w.archetypes[a].entities[i];
        &&& x.0 < w.next_entity
        &&& w.location(x) == Some((a as usize, i as usize))
    } by {
        let x = w.archetypes[a].entities[i];
        if a == a0 && i == row0 {
            assert(x == e);
        } else {
            assert(a < v.archetypes.len() && i < v.archetypes[a].entities.len());
            assert(x == v.archetypes[a].entities[i]);
            assert(v.location(x) == Some((a as usize, i as usize)));
        }
    }
    // locations to entities
    assert forall|x: int| 0 <= x < w.locations.len() implies match #[trigger] w.locations[x] {
        Some((a, r)) => a < w.archetypes.len() && r < w.archetypes[a as int].entities.len()
            && w.archetypes[a as int].entities[r as int].0 == x,
        None => true,
    } by {
        if x != e.0 && x < v.locations.len() {
            assert(w.locations[x] == v.locations[x]);
            if let Some((a, r)) = v.locations[x] {
                assert(v.archetypes[a as int].entities[r as int].0 == x);
            }
        }
    }
    assert(w.locations.len() <= w.next_entity);
    assert(w.archetypes.len() <= w.next_entity);
    assert(forall|a: int| 0 <= a < w.archetypes.len() ==> (#[trigger] w.archetypes[a]).entities.len() <= w.next_entity);
}

/// One entity of a query result with copies of the queried components.
pub struct QueryRow {
    pub entity: EntityId,
    pub components: Vec<Vec<u8>>,
}

impl View for QueryRow {
    type V = (EntityId, Seq<Seq<u8>>);

    open spec fn view(&self) -> (EntityId, Seq<Seq<u8>>) {
        (self.entity, self.components@.map_values(|c: Vec<u8>| c@))
    }
}

/// The rows an archetype contributes to a query of `ids`: each entity with
/// the slot at its row in the column of each queried id.
pub open spec fn archetype_rows(arch: ArchetypeView, ids: Seq<ComponentId>) -> Seq<(EntityId, Seq<Seq<u8>>)> {
    Seq::new(
        arch.entities.len(),
        |i: int|
            (
                arch.entities[i],
                ids.map_values(|id: ComponentId| arch.columns[arch.column_index(id.0 as nat).unwrap()].cell(i)),
            ),
    )
}

/// The result of a query of `ids`: the rows of every archetype whose mask
/// holds all of `ids`, archetype by archetype.
pub open spec fn query_rows(archetypes: Seq<ArchetypeView>, ids: Seq<ComponentId>) -> Seq<(EntityId, Seq<Seq<u8>>)>
    decreases archetypes.len(),
{
    if archetypes.len() == 0 {
        Seq::empty()
    } else {
        let earlier = query_rows(archetypes.drop_last(), ids);
        if archetypes.last().has_components(ids) {
            earlier + archetype_rows(archetypes.last(), ids)
        } else {
            earlier
        }
    }
}

/// One entity of an access-tagged query: a copy of each queried component
/// together with the access it was asked for.
pub struct AccessRow {
    pub entity: EntityId,
    pub components: Vec<(Vec<u8>, Access)>,
}

impl View for AccessRow {
    type V = (EntityId, Seq<(Seq<u8>, Access)>);

    open spec fn view(&self) -> (EntityId, Seq<(Seq<u8>, Access)>) {
        (self.entity, self.components@.map_values(|c: (Vec<u8>, Access)| (c.0@, c.1)))
    }
}

/// A query row with the `k`-th slot tagged by the `k`-th access.
pub open spec fn tag_row(row: (EntityId, Seq<Seq<u8>>), accesses: Seq<Access>) -> (EntityId, Seq<(Seq<u8>, Access)>) {
    (row.0, Seq::new(row.1.len(), |k: int| (row.1[k], accesses[k])))
}

/// No id occurs twice in `ids`.
pub open spec fn distinct_ids(ids: Seq<ComponentId>) -> bool {
    forall|x: int, y: int| 0 <= x < y < ids.len() ==> ids[x] != ids[y]
}

/// A typed query: the component ids it reads and how a row of their bytes
/// becomes a result.
pub trait Query {
    type Result;

    /// The queried component ids, in order.
    spec fn spec_ids() -> Seq<ComponentId>;

    /// The result made from the bytes of the queried components of one entity.
    spec fn spec_decode(cells: Seq<Seq<u8>>) -> Self::Result;

    fn ids() -> (ids: Vec<ComponentId>)
        ensures
            ids@ == Self::spec_ids(),
    ;

    fn decode(cells: &Vec<Vec<u8>>) -> (r: Self::Result)
        requires
            cells@.len() == Self::spec_ids().len(),
        ensures
            r == Self::spec_decode(cells@.map_values(|c: Vec<u8>| c@)),
    ;
}

impl<A: Component> Query for (A,) {
    type Result = (A,);

    open spec fn spec_ids() -> Seq<ComponentId> {
        seq![A::spec_component_id()]
    }

    open spec fn spec_decode(cells: Seq<Seq<u8>>) -> (A,) {
        (A::spec_from_bytes(cells[0]),)
    }

    fn ids() -> (ids: Vec<ComponentId>) {
        let mut ids = Vec::new();
        ids.push(A::component_id());
        proof {
            assert(ids@ =~= Self::spec_ids());
        }
        ids
    }

    fn decode(cells: &Vec<Vec<u8>>) -> (r: (A,)) {
        (A::from_bytes(cells[0].as_slice()),)
    }
}

impl<A: Component, B: Component> Query for (A, B) {
    type Result = (A, B);

    open spec fn spec_ids() -> Seq<ComponentId> {
        seq![A::spec_component_id(), B::spec_component_id()]
    }

    open spec fn spec_decode(cells: Seq<Seq<u8>>) -> (A, B) {
        (A::spec_from_bytes(cells[0]), B::spec_from_bytes(cells[1]))
    }

    fn ids() -> (ids: Vec<ComponentId>) {
        let mut ids = Vec::new();
        ids.push(A::component_id());
        ids.push(B::component_id());
        proof {
            assert(ids@ =~= Self::spec_ids());
        }
        ids
    }

    fn decode(cells: &Vec<Vec<u8>>) -> (r: (A, B)) {
        (A::from_bytes(cells[0].as_slice()), B::from_bytes(cells[1].as_slice()))
    }
}

impl<A: Component, B: Component, C: Component> Query for (A, B, C) {
    type Result = (A, B, C);

    open spec fn spec_ids() -> Seq<ComponentId> {
        seq![A::spec_component_id(), B::spec_component_id(), C::spec_component_id()]
    }

    open spec fn spec_decode(cells: Seq<Seq<u8>>) -> (A, B, C) {
        (A::spec_from_bytes(cells[0]), B::spec_from_bytes(cells[1]), C::spec_from_bytes(cells[2]))
    }

    fn ids() -> (ids: Vec<ComponentId>) {
        let mut ids = Vec::new();
        ids.push(A::component_id());
        ids.push(B::component_id());
        ids.push(C::component_id());
        proof {
            assert(ids@ =~= Self::spec_ids());
        }
        ids
    }

    fn decode(cells: &Vec<Vec<u8>>) -> (r: (A, B, C)) {
        (A::from_bytes(cells[0].as_slice()), B::from_bytes(cells[1].as_slice()), C::from_bytes(cells[2].as_slice()))
    }
}

impl<A: Component, B: Component, C: Component, D: Component> Query for (A, B, C, D) {
    type Result = (A, B, C, D);

    open spec fn spec_ids() -> Seq<ComponentId> {
        seq![A::spec_component_id(), B::spec_component_id(), C::spec_component_id(), D::spec_component_id()]
    }

    open spec fn spec_decode(cells: Seq<Seq<u8>>) -> (A, B, C, D) {
        (A::spec_from_bytes(cells[0]), B::spec_from_bytes(cells[1]), C::spec_from_bytes(cells[2]), D::spec_from_bytes(cells[3]))
    }

    fn ids() -> (ids: Vec<ComponentId>) {
        let mut ids = Vec::new();
        ids.push(A::component_id());
        ids.push(B::component_id());
        ids.push(C::component_id());
        ids.push(D::component_id());
        proof {
            assert(ids@ =~= Self::spec_ids());
        }
        ids
    }

    fn decode(cells: &Vec<Vec<u8>>) -> (r: (A, B, C, D)) {
        (A::from_bytes(cells[0].as_slice()), B::from_bytes(cells[1].as_slice()), C::from_bytes(cells[2].as_slice()), D::from_bytes(cells[3].as_slice()))
    }
}

impl<A: Component, B: Component, C: Component, D: Component, E: Component> Query for (A, B, C, D, E) {
    type Result = (A, B, C, D, E);

    open spec fn spec_ids() -> Seq<ComponentId> {
        seq![A::spec_component_id(), B::spec_component_id(), C::spec_component_id(), D::spec_component_id(), E::spec_component_id()]
    }

    open spec fn spec_decode(cells: Seq<Seq<u8>>) -> (A, B, C, D, E) {
        (A::spec_from_bytes(cells[0]), B::spec_from_bytes(cells[1]), C::spec_from_bytes(cells[2]), D::spec_from_bytes(cells[3]), E::spec_from_bytes(cells[4]))
    }

    fn ids() -> (ids: Vec<ComponentId>) {
        let mut ids = Vec::new();
        ids.push(A::component_id());
        ids.push(B::component_id());
        ids.push(C::component_id());
        ids.push(D::component_id());
        ids.push(E::component_id());
        proof {
            assert(ids@ =~= Self::spec_ids());
        }
        ids
    }

    fn decode(cells: &Vec<Vec<u8>>) -> (r: (A, B, C, D, E)) {
        (A::from_bytes(cells[0].as_slice()), B::from_bytes(cells[1].as_slice()), C::from_bytes(cells[2].as_slice()), D::from_bytes(cells[3].as_slice()), E::from_bytes(cells[4].as_slice()))
    }
}

impl<A: Component, B: Component, C: Component, D: Component, E: Component, F: Component> Query for (A, B, C, D, E, F) {
    type Result = (A, B, C, D, E, F);

    open spec fn spec_ids() -> Seq<ComponentId> {
        seq![A::spec_component_id(), B::spec_component_id(), C::spec_component_id(), D::spec_component_id(), E::spec_component_id(), F::spec_component_id()]
    }

    open spec fn spec_decode(cells: Seq<Seq<u8>>) -> (A, B, C, D, E, F) {
        (A::spec_from_bytes(cells[0]), B::spec_from_bytes(cells[1]), C::spec_from_bytes(cells[2]), D::spec_from_bytes(cells[3]), E::spec_from_bytes(cells[4]), F::spec_from_bytes(cells[5]))
    }

    fn ids() -> (ids: Vec<ComponentId>) {
        let mut ids = Vec::new();
        ids.push(A::component_id());
        ids.push(B::component_id());
        ids.push(C::component_id());
        ids.push(D::component_id());
        ids.push(E::component_id());
        ids.push(F::component_id());
        proof {
            assert(ids@ =~= Self::spec_ids());
        }
        ids
    }

    fn decode(cells: &Vec<Vec<u8>>) -> (r: (A, B, C, D, E, F)) {
        (A::from_bytes(cells[0].as_slice()), B::from_bytes(cells[1].as_slice()), C::from_bytes(cells[2].as_slice()), D::from_bytes(cells[3].as_slice()), E::from_bytes(cells[4].as_slice()), F::from_bytes(cells[5].as_slice()))
    }
}

/// The results of query `Q`: one per row of the query of its ids.
pub open spec fn query_results<Q: Query>(archetypes: Seq<ArchetypeView>) -> Seq<Q::Result> {
    query_rows(archetypes, Q::spec_ids()).map_values(|row: (EntityId, Seq<Seq<u8>>)| Q::spec_decode(row.1))
}

/// Every row of a query has one slot per queried id.
pub proof fn lemma_query_row_width(archetypes: Seq<ArchetypeView>, ids: Seq<ComponentId>)
    ensures
        forall|k: int| 0 <= k < query_rows(archetypes, ids).len() ==> (#[trigger] query_rows(archetypes, ids)[k]).1.len() == ids.len(),
    decreases archetypes.len(),
{
    if archetypes.len() > 0 {
        let d = archetypes.drop_last();
        lemma_query_row_width(d, ids);
        let q = query_rows(archetypes, ids);
        assert forall|k: int| 0 <= k < q.len() implies (#[trigger] q[k]).1.len() == ids.len() by {
            if k < query_rows(d, ids).len() {
                assert(q[k] == query_rows(d, ids)[k]);
            }
        }
    }
}

/// Abstract value of a [`World`].
pub struct WorldView {
    pub archetypes: Seq<ArchetypeView>,
    pub next_entity: u32,
    pub locations: Seq<Option<(usize, usize)>>,
}

impl WorldView {
    /// Archetype and row of entity `e`.
    pub open spec fn location(self, e: EntityId) -> Option<(usize, usize)> {
        if (e.0 as int) < self.locations.len() {
            self.locations[e.0 as int]
        } else {
            None
        }
    }

    /// The bytes of component `id` of entity `e`: its slot in the column of
    /// `id` of the entity's archetype, at the entity's row.
    pub open spec fn component(self, e: EntityId, id: ComponentId) -> Option<Seq<u8>> {
        match self.location(e) {
            Some((a, r)) => match self.archetypes[a as int].column_index(id.0 as nat) {
                Some(j) => Some(self.archetypes[a as int].columns[j].cell(r as int)),
                None => None,
            },
            None => None,
        }
    }

    /// Each archetype's mask is the set of its column ids; the entity table and
    /// the archetypes' entity lists describe each other; and row counts are
    /// bounded by the number of entities spawned.
    pub open spec fn wf(self) -> bool {
        &&& self.structure_wf()
        &&& forall|a: int, j: int| 0 <= a < self.archetypes.len() && 0 <= j < self.archetypes[a].columns.len()
            ==> (#[trigger] self.archetypes[a].columns[j]).wf()
    }

    /// The part of [`WorldView::wf`] about masks, entities and row counts.
    pub open spec fn structure_wf(self) -> bool {
        &&& forall|a: int, i: nat| 0 <= a < self.archetypes.len() ==>
            ((#[trigger] self.archetypes[a].mask.contains(i)) <==> self.archetypes[a].column_index(i) is Some)
        &&& self.locations.len() <= self.next_entity
        &&& self.archetypes.len() <= self.next_entity
        &&& forall|a: int| 0 <= a < self.archetypes.len() ==> (#[trigger] self.archetypes[a]).entities.len() <= self.next_entity
        &&& forall|a: int, j: int| 0 <= a < self.archetypes.len() && 0 <= j < self.archetypes[a].columns.len()
            ==> (#[trigger] self.archetypes[a].columns[j]).len <= MAX_COMPONENTS * self.next_entity
        &&& forall|a: int, i: int| 0 <= a < self.archetypes.len() && 0 <= i < self.archetypes[a].entities.len() ==> {
            let e = #[trigger] self.archetypes[a].entities[i];
            &&& e.0 < self.next_entity
            &&& self.location(e) == Some((a as usize, i as usize))
        }
        &&& forall|e: int| 0 <= e < self.locations.len() ==> match #[trigger] self.locations[e] {
            Some((a, r)) => a < self.archetypes.len() && r < self.archetypes[a as int].entities.len()
                && self.archetypes[a as int].entities[r as int].0 == e,
            None => true,
        }
    }

    /// One more entity can be spawned: its id and the row counts it adds stay
    /// within machine integers.
    pub open spec fn can_spawn(self) -> bool {
        &&& self.next_entity < u32::MAX
        &&& (self.next_entity as int + 1) * MAX_COMPONENTS <= usize::MAX
    }

    /// `comps` describe valid component values that can be spawned together:
    /// ids a mask can hold, bytes that cover their layouts, layouts that allow
    /// a first column of 64 values, and every existing column of the same
    /// component has rows no longer than the component's bytes.
    pub open spec fn accepts(self, comps: Seq<ErasedView>) -> bool {
        &&& ids_in_range(erased_ids(comps))
        &&& forall|i: int| 0 <= i < comps.len() ==> {
            let c = #[trigger] comps[i];
            &&& c.data.len() >= c.layout.size
            &&& c.layout.valid()
            &&& (c.layout.size == 0 || c.layout.fits(64))
        }
        &&& forall|a: int, j: int, i: int|
            0 <= a < self.archetypes.len() && 0 <= j < self.archetypes[a].columns.len() && 0 <= i < comps.len()
                && (#[trigger] self.archetypes[a].columns[j]).meta.id == (#[trigger] comps[i]).id
                ==> self.archetypes[a].columns[j].size() <= comps[i].data.len()
    }

    /// `write` can be applied: its entity exists and its archetype can take
    /// the write at the entity's row.
    pub open spec fn can_write(self, write: ComponentWriteView) -> bool {
        &&& self.location(write.entity) is Some
        &&& {
            let (a, r) = self.location(write.entity).unwrap();
            self.archetypes[a as int].can_apply(write, r as int)
        }
    }

    /// The world after `write` is applied at its entity's row; nothing but
    /// the written slot changes.
    pub open spec fn written(self, write: ComponentWriteView, result: WorldView) -> bool {
        let (a, r) = self.location(write.entity).unwrap();
        &&& result.next_entity == self.next_entity
        &&& result.locations == self.locations
        &&& result.archetypes.len() == self.archetypes.len()
        &&& forall|b: int| 0 <= b < self.archetypes.len() && b != a ==>
            #[trigger] result.archetypes[b] == self.archetypes[b]
        &&& self.archetypes[a as int].applied(write, r as int, result.archetypes[a as int])
    }

    /// The world after `comps` are spawned as entity `e`: appended to the first
    /// archetype whose mask holds all their ids, or to a new archetype.
    pub open spec fn spawned(self, comps: Seq<ErasedView>, e: EntityId, result: WorldView) -> bool {
        &&& result.next_entity == self.next_entity + 1
        &&& match first_match(self.archetypes, erased_ids(comps)) {
            Some(a) => {
                let arch = self.archetypes[a];
                &&& result.archetypes == self.archetypes.update(a, ArchetypeView {
                    columns: Seq::new(arch.columns.len(), |j: int| arch.columns[j].push_all(rows_for(comps, arch, j))),
                    entities: arch.entities.push(e),
                    mask: arch.mask,
                })
                &&& result.locations == located(self.locations, e, (a as usize, arch.entities.len() as usize))
            },
            None => {
                &&& result.archetypes == self.archetypes.push(fresh_archetype(comps, e))
                &&& result.locations == located(self.locations, e, (self.archetypes.len() as usize, 0usize))
            },
        }
    }
}

/// Entities and their components, grouped by archetype.
pub struct World {
    archetypes: Vec<Archetype>,
    next_entity: EntityId,
    entity_to_archetype: Vec<Option<(usize, usize)>>,
}

impl View for World {
    type V = WorldView;

    closed spec fn view(&self) -> WorldView {
        WorldView {
            archetypes: self.archetypes@.map_values(|a: Archetype| a@),
            next_entity: self.next_entity.0,
            locations: self.entity_to_archetype@,
        }
    }
}

impl World {
    /// The world invariant: every archetype is well formed and the abstract
    /// world satisfies [`WorldView::wf`].
    pub closed spec fn wf(&self) -> bool {
        &&& forall|a: int| 0 <= a < self.archetypes@.len() ==> (#[trigger] self.archetypes@[a]).wf()
        &&& self@.wf()
    }

    /// The columns of well-formed archetypes are well formed.
    proof fn lemma_columns_wf(&self)
        requires
            forall|a: int| 0 <= a < self.archetypes@.len() ==> (#[trigger] self.archetypes@[a]).wf(),
        ensures
            forall|a: int, j: int| 0 <= a < self@.archetypes.len() && 0 <= j < self@.archetypes[a].columns.len()
                ==> (#[trigger] self@.archetypes[a].columns[j]).wf(),
    {
        assert forall|a: int, j: int| 0 <= a < self@.archetypes.len() && 0 <= j < self@.archetypes[a].columns.len()
            implies (#[trigger] self@.archetypes[a].columns[j]).wf() by {
            assert(self@.archetypes[a] == self.archetypes@[a]@);
            self.archetypes@[a].lemma_columns_wf();
        }
    }

    pub fn new() -> (w: World)
        ensures
            w.wf(),
            w@.archetypes == Seq::<ArchetypeView>::empty(),
            w@.next_entity == 0,
            w@.locations == Seq::<Option<(usize, usize)>>::empty(),
    {
        let w = World { archetypes: Vec::new(), next_entity: EntityId(0), entity_to_archetype: Vec::new() };
        proof {
            assert(w@.archetypes =~= Seq::<ArchetypeView>::empty());
        }
        w
    }

    /// Index of the first archetype whose mask holds every id of `ids`.
    fn find_archetype(&self, ids: &Vec<ComponentId>) -> (r: Option<usize>)
        requires
            ids_in_range(ids@),
        ensures
            r == match first_match(self@.archetypes, ids@) {
                Some(a) => Some(a as usize),
                None => None::<usize>,
            },
    {
        let n = self.archetypes.len();
        let mut a: usize = 0;
        while a < n
            invariant
                n == self.archetypes@.len(),
                a <= n,
                ids_in_range(ids@),
                first_match(self@.archetypes.take(a as int), ids@) is None,
            decreases n - a,
        {
            proof {
                assert(self@.archetypes[a as int] == self.archetypes@[a as int]@);
                let t = self@.archetypes.take(a as int + 1);
                assert(t.drop_last() =~= self@.archetypes.take(a as int));
            }
            if self.archetypes[a].has_components(ids.as_slice()) {
                proof {
                    lemma_first_match_prefix(self@.archetypes, ids@, a as int + 1);
                }
                return Some(a);
            }
            a = a + 1;
        }
        proof {
            assert(self@.archetypes.take(n as int) =~= self@.archetypes);
        }
        None
    }

    /// Appends `components` as entity `entity` to archetype `idx`, whose mask
    /// holds all their ids, and returns the entity's row.
    fn spawn_into(&mut self, idx: usize, components: &[ErasedComponent], entity: EntityId) -> (row: usize)
        requires
            old(self).wf(),
            old(self)@.can_spawn(),
            old(self)@.accepts(components@.map_values(|c: ErasedComponent| c@)),
            idx < old(self)@.archetypes.len(),
            old(self)@.archetypes[idx as int].has_components(erased_ids(components@.map_values(|c: ErasedComponent| c@))),
        ensures
            final(self).next_entity == old(self).next_entity,
            final(self).entity_to_archetype == old(self).entity_to_archetype,
            final(self).archetypes@.len() == old(self).archetypes@.len(),
            forall|b: int| 0 <= b < old(self).archetypes@.len() ==> (#[trigger] final(self).archetypes@[b]).wf(),
            row == old(self)@.archetypes[idx as int].entities.len(),
            final(self)@.archetypes == old(self)@.archetypes.update(idx as int, ({
                let comps = components@.map_values(|c: ErasedComponent| c@);
                let arch = old(self)@.archetypes[idx as int];
                ArchetypeView {
                    columns: Seq::new(arch.columns.len(), |j: int| arch.columns[j].push_all(rows_for(comps, arch, j))),
                    entities: arch.entities.push(entity),
                    mask: arch.mask,
                }
            })),
    {
        let ghost comps = components@.map_values(|c: ErasedComponent| c@);
        let ghost arch = self@.archetypes[idx as int];
        let ghost old_archs = self.archetypes@;
        let ghost next = self@.next_entity;
        proof {
            assert(arch == self.archetypes@[idx as int]@);
            assert(Seq::new(arch.columns.len(), |j: int| arch.columns[j].push_all(rows_for(comps.take(0), arch, j)))
                =~= arch.columns);
        }
        let n = components.len();
        let mut k: usize = 0;
        while k < n
            invariant
                n == components@.len(),
                comps == components@.map_values(|c: ErasedComponent| c@),
                k <= n,
                idx < old_archs.len(),
                idx < old(self)@.archetypes.len(),
                arch == old_archs[idx as int]@,
                self.next_entity == old(self).next_entity,
                self.entity_to_archetype == old(self).entity_to_archetype,
                next == self@.next_entity,
                old(self)@.can_spawn(),
                old(self)@.accepts(comps),
                arch == old(self)@.archetypes[idx as int],
                arch.has_components(erased_ids(comps)),
                forall|a: int, i: nat| 0 <= a < old(self)@.archetypes.len() ==>
                    ((#[trigger] old(self)@.archetypes[a].mask.contains(i)) <==> old(self)@.archetypes[a].column_index(i) is Some),
                forall|j: int| 0 <= j < arch.columns.len() ==> (#[trigger] arch.columns[j]).len <= MAX_COMPONENTS * next,
                self.archetypes@.len() == old_archs.len(),
                forall|b: int| 0 <= b < old_archs.len() && b != idx ==> self.archetypes@[b] == old_archs[b],
                forall|b: int| 0 <= b < old_archs.len() ==> (#[trigger] self.archetypes@[b]).wf(),
                self.archetypes@[idx as int]@ == (ArchetypeView {
                    columns: Seq::new(arch.columns.len(), |j: int| arch.columns[j].push_all(rows_for(comps.take(k as int), arch, j))),
                    ..arch
                }),
            decreases n - k,
        {
            let ghost cur = self.archetypes@[idx as int]@;
            let ghost c = comps[k as int];
            proof {
                assert(c == components@[k as int]@);
                assert(cur.column_ids() =~= arch.column_ids()) by {
                    assert forall|j: int| 0 <= j < arch.columns.len() implies #[trigger] cur.columns[j].meta == arch.columns[j].meta by {
                        lemma_push_all(arch.columns[j], rows_for(comps.take(k as int), arch, j));
                    }
                }
                // the component's id is in the mask, so it has a column
                assert(erased_ids(comps)[k as int] == c.id);
                assert(id_set(erased_ids(comps)).contains(c.id.0 as nat));
                assert(old(self)@.archetypes[idx as int].mask.contains(c.id.0 as nat));
                let j = arch.column_index(c.id.0 as nat).unwrap();
                lemma_last_index_of(arch.column_ids(), c.id.0 as nat);
                assert(arch.columns[j].meta.id == c.id);
                lemma_push_all(arch.columns[j], rows_for(comps.take(k as int), arch, j));
                lemma_rows_for_len(comps.take(k as int), arch, j);
                assert(arch.columns[j].len <= MAX_COMPONENTS * next);
                assert(MAX_COMPONENTS * next + MAX_COMPONENTS <= usize::MAX);
                assert(comps.len() <= MAX_COMPONENTS);
                assert(cur.columns[j].size() == arch.columns[j].size());
            }
            self.archetypes[idx].push_component(&components[k]);
            proof {
                let j = arch.column_index(c.id.0 as nat).unwrap();
                let t = comps.take(k as int + 1);
                assert(t.drop_last() =~= comps.take(k as int));
                assert(t.last() == c);
                let new_view = self.archetypes@[idx as int]@;
                assert forall|jj: int| 0 <= jj < arch.columns.len() implies
                    #[trigger] new_view.columns[jj] == arch.columns[jj].push_all(rows_for(t, arch, jj)) by {
                    if jj == j {
                        let rows = rows_for(comps.take(k as int), arch, jj);
                        let row = c.data.subrange(0, arch.columns[jj].size() as int);
                        assert(rows.push(row).drop_last() =~= rows);
                    }
                }
                assert(new_view.columns =~= Seq::new(arch.columns.len(), |jj: int| arch.columns[jj].push_all(rows_for(t, arch, jj))));
            }
            k = k + 1;
        }
        proof {
            assert(comps.take(n as int) =~= comps);
        }
        let row = self.archetypes[idx].add_entity(entity);
        proof {
            assert(self@.archetypes =~= old(self)@.archetypes.update(idx as int, ArchetypeView {
                columns: Seq::new(arch.columns.len(), |j: int| arch.columns[j].push_all(rows_for(comps, arch, j))),
                entities: arch.entities.push(entity),
                mask: arch.mask,
            }));
        }
        row
    }

    /// Opens a new archetype for `components`, holding entity `entity` in
    /// row 0.
    fn spawn_new(&mut self, ids: &Vec<ComponentId>, components: &[ErasedComponent], entity: EntityId)
        requires
            ids@ == erased_ids(components@.map_values(|c: ErasedComponent| c@)),
            old(self)@.accepts(components@.map_values(|c: ErasedComponent| c@)),
        ensures
            final(self).next_entity == old(self).next_entity,
            final(self).entity_to_archetype == old(self).entity_to_archetype,
            final(self).archetypes@.len() == old(self).archetypes@.len() + 1,
            forall|b: int| 0 <= b < old(self).archetypes@.len() ==> final(self).archetypes@[b] == old(self).archetypes@[b],
            final(self).archetypes@.last().wf(),
            final(self)@.archetypes == old(self)@.archetypes.push(
                fresh_archetype(components@.map_values(|c: ErasedComponent| c@), entity),
            ),
    {
        let ghost comps = components@.map_values(|c: ErasedComponent| c@);
        let mask = ArchetypeMask::from_ids(ids.as_slice());
        let mut columns: Vec<Column> = Vec::new();
        let n = components.len();
        let mut k: usize = 0;
        while k < n
            invariant
                n == components@.len(),
                comps == components@.map_values(|c: ErasedComponent| c@),
                ids@ == erased_ids(comps),
                old(self)@.accepts(comps),
                k <= n,
                columns@.len() == k,
                forall|j: int| 0 <= j < k ==> (#[trigger] columns@[j]).wf(),
                forall|j: int| 0 <= j < k ==> (#[trigger] columns@[j])@ == fresh_column(comps[j]),
            decreases n - k,
        {
            let comp = &components[k];
            proof {
                assert(comps[k as int] == comp@);
            }
            let mut col = Column::new(64, comp.id, comp.layout, comp.kind);
            col.push_erased(comp);
            proof {
                assert(col@.bytes =~= comp.data@.subrange(0, comp.layout.size as int));
                assert(col@ == fresh_column(comps[k as int]));
            }
            columns.push(col);
            k = k + 1;
        }
        proof {
            assert forall|j: int| 0 <= j < columns@.len() implies (#[trigger] columns@[j])@.meta.id.0 < MAX_COMPONENTS by {
                assert(erased_ids(comps)[j] == comps[j].id);
            }
        }
        let mut archetype = Archetype::new(mask, columns);
        archetype.add_entity(entity);
        let ghost old_archs = self.archetypes@;
        self.archetypes.push(archetype);
        proof {
            assert(archetype@.columns =~= comps.map_values(|c: ErasedView| fresh_column(c)));
            assert(archetype@.entities =~= seq![entity]);
            assert(self@.archetypes =~= old(self)@.archetypes.push(fresh_archetype(comps, entity)));
        }
    }

    /// Spawns an entity with the given type-erased components and returns its
    /// id. The entity joins the first archetype whose mask holds all the
    /// components' ids, or a new archetype made for them.
    pub fn spawn_erased(&mut self, components: &[ErasedComponent]) -> (entity: EntityId)
        requires
            old(self).wf(),
            old(self)@.can_spawn(),
            old(self)@.accepts(components@.map_values(|c: ErasedComponent| c@)),
        ensures
            final(self).wf(),
            entity.0 == old(self)@.next_entity,
            old(self)@.spawned(components@.map_values(|c: ErasedComponent| c@), entity, final(self)@),
    {
        let ghost comps = components@.map_values(|c: ErasedComponent| c@);
        let entity_id = self.next_entity;
        let mut ids: Vec<ComponentId> = Vec::new();
        let n = components.len();
        let mut k: usize = 0;
        while k < n
            invariant
                n == components@.len(),
                comps == components@.map_values(|c: ErasedComponent| c@),
                k <= n,
                ids@ == erased_ids(comps).take(k as int),
            decreases n - k,
        {
            ids.push(components[k].id);
            proof {
                assert(ids@ =~= erased_ids(comps).take(k as int + 1));
            }
            k = k + 1;
        }
        proof {
            assert(ids@ =~= erased_ids(comps));
        }
        match self.find_archetype(&ids) {
            Some(idx) => {
                proof {
                    lemma_first_match(self@.archetypes, ids@);
                }
                let row = self.spawn_into(idx, components, entity_id);
                self.ensure_entity_map_capacity(entity_id);
                self.entity_to_archetype.set(entity_id.0 as usize, Some((idx, row)));
            },
            None => {
                let idx = self.archetypes.len();
                self.spawn_new(&ids, components, entity_id);
                self.ensure_entity_map_capacity(entity_id);
                self.entity_to_archetype.set(entity_id.0 as usize, Some((idx, 0)));
            },
        }
        self.next_entity = EntityId(entity_id.0 + 1);
        proof {
            assert(self@.locations =~= located(old(self)@.locations, entity_id, match first_match(old(self)@.archetypes, ids@) {
                Some(a) => (a as usize, old(self)@.archetypes[a].entities.len() as usize),
                None => (old(self)@.archetypes.len() as usize, 0usize),
            }));
            lemma_spawned_wf(old(self)@, comps, entity_id, self@);
            self.lemma_columns_wf();
        }
        entity_id
    }

    /// Writes the component of `write` into its entity's slot.
    pub fn apply(&mut self, write: &ComponentWrite)
        requires
            old(self).wf(),
            old(self)@.can_write(write@),
        ensures
            final(self).wf(),
            old(self)@.written(write@, final(self)@),
    {
        let ghost loc = self@.location(write.entity).unwrap();
        let (arch_idx, row) = match self.entity_to_archetype[write.entity.0 as usize] {
            Some(loc) => loc,
            None => {
                return;
            },
        };
        proof {
            assert(self@.archetypes[arch_idx as int] == self.archetypes@[arch_idx as int]@);
        }
        let ghost old_archs = self.archetypes@;
        self.archetypes[arch_idx].apply_write(write, row);
        proof {
            let v = old(self)@;
            let w = self@;
            let a = arch_idx as int;
            let arch = v.archetypes[a];
            assert forall|b: int| 0 <= b < v.archetypes.len() && b != a implies #[trigger] w.archetypes[b] == v.archetypes[b] by {
                assert(self.archetypes@[b] == old_archs[b]);
            }
            assert(w.archetypes[a].column_ids() =~= arch.column_ids());
            let j = arch.column_index(write.component_id.0 as nat).unwrap();
            lemma_last_index_of(arch.column_ids(), write.component_id.0 as nat);
            assert forall|b: int, jj: int| 0 <= b < w.archetypes.len() && 0 <= jj < w.archetypes[b].columns.len() implies
                (#[trigger] w.archetypes[b].columns[jj]).len <= MAX_COMPONENTS * w.next_entity by {
                if b == a && jj == j {
                    assert(arch.entities.len() <= v.next_entity);
                    assert(row < arch.entities.len());
                }
            }
            self.lemma_columns_wf();
            assert(w.wf());
        }
    }

    /// Copies, for every entity whose archetype holds all of `ids`, the slot
    /// of each queried component at the entity's row.
    pub fn query_erased(&self, ids: &[ComponentId]) -> (rows: Vec<QueryRow>)
        requires
            self.wf(),
            ids_in_range(ids@),
        ensures
            rows@.map_values(|r: QueryRow| r@) == query_rows(self@.archetypes, ids@),
    {
        let mut out: Vec<QueryRow> = Vec::new();
        let n = self.archetypes.len();
        let mut a: usize = 0;
        while a < n
            invariant
                n == self.archetypes@.len(),
                a <= n,
                self.wf(),
                ids_in_range(ids@),
                out@.map_values(|r: QueryRow| r@) == query_rows(self@.archetypes.take(a as int), ids@),
            decreases n - a,
        {
            let archetype = &self.archetypes[a];
            let ghost av = archetype@;
            proof {
                assert(av == self@.archetypes[a as int]);
                let t = self@.archetypes.take(a as int + 1);
                assert(t.drop_last() =~= self@.archetypes.take(a as int));
                assert(t.last() == av);
            }
            if archetype.has_components(ids) {
                // every queried id has a column: the mask is the set of column ids
                let mut column_indices: Vec<usize> = Vec::new();
                let m = ids.len();
                let mut q: usize = 0;
                while q < m
                    invariant
                        m == ids@.len(),
                        q <= m,
                        archetype.wf(),
                        av == archetype@,
                        av.has_components(ids@),
                        self.wf(),
                        av == self@.archetypes[a as int],
                        0 <= a < self@.archetypes.len(),
                        column_indices@.len() == q,
                        forall|p: int| 0 <= p < q ==> av.column_index(ids@[p].0 as nat) == Some(#[trigger] column_indices@[p] as int),
                        forall|p: int| 0 <= p < q ==> (#[trigger] column_indices@[p]) < av.columns.len(),
                    decreases m - q,
                {
                    proof {
                        assert(id_set(ids@).contains(ids@[q as int].0 as nat));
                        assert(self@.archetypes[a as int].mask.contains(ids@[q as int].0 as nat));
                        lemma_last_index_of(av.column_ids(), ids@[q as int].0 as nat);
                    }
                    let ci = match archetype.column_index(ids[q]) {
                        Some(ci) => ci,
                        None => 0,
                    };
                    column_indices.push(ci);
                    q = q + 1;
                }
                let entities = archetype.entities();
                let columns = archetype.columns();
                let len = entities.len();
                let ghost before = out@.map_values(|r: QueryRow| r@);
                let mut i: usize = 0;
                while i < len
                    invariant
                        len == av.entities.len(),
                        entities@ == av.entities,
                        columns@.map_values(|c: Column| c@) == av.columns,
                        forall|c: int| 0 <= c < columns@.len() ==> (#[trigger] columns@[c]).wf(),
                        m == ids@.len(),
                        column_indices@.len() == m,
                        forall|p: int| 0 <= p < m ==> av.column_index(ids@[p].0 as nat) == Some(#[trigger] column_indices@[p] as int),
                        forall|p: int| 0 <= p < m ==> (#[trigger] column_indices@[p]) < columns@.len(),
                        i <= len,
                        out@.map_values(|r: QueryRow| r@) == before + archetype_rows(av, ids@).take(i as int),
                    decreases len - i,
                {
                    let mut cells: Vec<Vec<u8>> = Vec::new();
                    let mut p: usize = 0;
                    while p < m
                        invariant
                            m == ids@.len(),
                            column_indices@.len() == m,
                            columns@.map_values(|c: Column| c@) == av.columns,
                            forall|c: int| 0 <= c < columns@.len() ==> (#[trigger] columns@[c]).wf(),
                            forall|pp: int| 0 <= pp < m ==> av.column_index(ids@[pp].0 as nat) == Some(#[trigger] column_indices@[pp] as int),
                            forall|pp: int| 0 <= pp < m ==> (#[trigger] column_indices@[pp]) < columns@.len(),
                            p <= m,
                            cells@.map_values(|c: Vec<u8>| c@) == ids@.take(p as int).map_values(
                                |id: ComponentId| av.columns[av.column_index(id.0 as nat).unwrap()].cell(i as int),
                            ),
                        decreases m - p,
                    {
                        let ci = column_indices[p];
                        let cell = columns[ci].read_cell(i);
                        let ghost prev = cells@.map_values(|c: Vec<u8>| c@);
                        proof {
                            assert(columns@[ci as int]@ == av.columns[ci as int]);
                            assert(av.column_index(ids@[p as int].0 as nat).unwrap() == ci as int);
                            assert(cell@ == av.columns[av.column_index(ids@[p as int].0 as nat).unwrap()].cell(i as int));
                        }
                        cells.push(cell);
                        proof {
                            assert(cells@.map_values(|c: Vec<u8>| c@) =~= prev.push(cell@));
                            assert(ids@.take(p as int + 1) =~= ids@.take(p as int).push(ids@[p as int]));
                            assert(cells@.map_values(|c: Vec<u8>| c@) =~= ids@.take(p as int + 1).map_values(
                                |id: ComponentId| av.columns[av.column_index(id.0 as nat).unwrap()].cell(i as int),
                            ));
                        }
                        p = p + 1;
                    }
                    proof {
                        assert(ids@.take(m as int) =~= ids@);
                    }
                    let ghost prev_out = out@.map_values(|r: QueryRow| r@);
                    let qrow = QueryRow { entity: entities[i], components: cells };
                    proof {
                        assert(qrow@ == archetype_rows(av, ids@)[i as int]);
                    }
                    out.push(qrow);
                    proof {
                        assert(out@.map_values(|r: QueryRow| r@) =~= prev_out.push(qrow@));
                        assert(archetype_rows(av, ids@).take(i as int + 1) =~= archetype_rows(av, ids@).take(i as int).push(
                            archetype_rows(av, ids@)[i as int],
                        ));
                        assert(out@.map_values(|r: QueryRow| r@) =~= before + archetype_rows(av, ids@).take(i as int + 1));
                    }
                    i = i + 1;
                }
                proof {
                    assert(archetype_rows(av, ids@).take(len as int) =~= archetype_rows(av, ids@));
                }
            }
            a = a + 1;
        }
        proof {
            assert(self@.archetypes.take(n as int) =~= self@.archetypes);
        }
        out
    }

    /// Spawns an entity with the components of `components` and returns its id.
    pub fn spawn<B: ComponentsBundle>(&mut self, components: B) -> (entity: EntityId)
        requires
            old(self).wf(),
            old(self)@.can_spawn(),
            old(self)@.accepts(components.spec_erased()),
        ensures
            final(self).wf(),
            entity.0 == old(self)@.next_entity,
            old(self)@.spawned(components.spec_erased(), entity, final(self)@),
    {
        let comps = components.erased();
        self.spawn_erased(comps.as_slice())
    }

    /// For every entity whose archetype holds all the requested components,
    /// a copy of the slot of each at the entity's row, tagged with the access
    /// requested for it; rows come archetype by archetype, as in
    /// [`World::query_erased`].
    pub fn query_erased_for_each(&self, components: &[(ComponentId, Access)]) -> (rows: Vec<AccessRow>)
        requires
            self.wf(),
            ids_in_range(components@.map_values(|c: (ComponentId, Access)| c.0)),
        ensures
            rows@.len() == query_rows(self@.archetypes, components@.map_values(|c: (ComponentId, Access)| c.0)).len(),
            forall|i: int| 0 <= i < rows@.len() ==> #[trigger] rows@[i]@ == tag_row(
                query_rows(self@.archetypes, components@.map_values(|c: (ComponentId, Access)| c.0))[i],
                components@.map_values(|c: (ComponentId, Access)| c.1),
            ),
    {
        let ghost id_seq = components@.map_values(|c: (ComponentId, Access)| c.0);
        let ghost acc_seq = components@.map_values(|c: (ComponentId, Access)| c.1);
        let mut ids: Vec<ComponentId> = Vec::new();
        let m = components.len();
        let mut j: usize = 0;
        while j < m
            invariant
                m == components@.len(),
                j <= m,
                ids@ == id_seq.take(j as int),
                id_seq == components@.map_values(|c: (ComponentId, Access)| c.0),
            decreases m - j,
        {
            ids.push(components[j].0);
            proof {
                assert(ids@ =~= id_seq.take(j as int + 1));
            }
            j = j + 1;
        }
        proof {
            assert(id_seq.take(m as int) =~= id_seq);
        }
        let plain = self.query_erased(ids.as_slice());
        proof {
            lemma_query_row_width(self@.archetypes, id_seq);
        }
        let ghost q = query_rows(self@.archetypes, id_seq);
        let mut out: Vec<AccessRow> = Vec::new();
        let n = plain.len();
        let mut k: usize = 0;
        while k < n
            invariant
                n == plain@.len(),
                k <= n,
                m == components@.len(),
                id_seq.len() == m,
                acc_seq == components@.map_values(|c: (ComponentId, Access)| c.1),
                plain@.map_values(|r: QueryRow| r@) == q,
                forall|i: int| 0 <= i < q.len() ==> (#[trigger] q[i]).1.len() == m,
                out@.len() == k,
                forall|i: int| 0 <= i < k ==> #[trigger] out@[i]@ == tag_row(q[i], acc_seq),
            decreases n - k,
        {
            let row = &plain[k];
            proof {
                assert(row@ == q[k as int]);
            }
            let mut cells: Vec<(Vec<u8>, Access)> = Vec::new();
            let w = row.components.len();
            let mut c: usize = 0;
            while c < w
                invariant
                    w == row.components@.len(),
                    w == m,
                    c <= w,
                    m == components@.len(),
                    acc_seq == components@.map_values(|c: (ComponentId, Access)| c.1),
                    cells@.len() == c,
                    forall|x: int| 0 <= x < c ==> (#[trigger] cells@[x]).0@ == row.components@[x]@
                        && cells@[x].1 == acc_seq[x],
                decreases w - c,
            {
                let bytes = row.components[c].clone();
                cells.push((bytes, components[c].1));
                c = c + 1;
            }
            let tagged = AccessRow { entity: row.entity, components: cells };
            proof {
                assert(tagged@.1 =~= tag_row(q[k as int], acc_seq).1);
            }
            out.push(tagged);
            k = k + 1;
        }
        out
    }

    /// The results of query `Q` for every entity whose archetype holds all of
    /// its components, archetype by archetype.
    pub fn query<Q: Query>(&self) -> (results: Vec<Q::Result>)
        requires
            self.wf(),
            ids_in_range(Q::spec_ids()),
            distinct_ids(Q::spec_ids()),
        ensures
            results@ == query_results::<Q>(self@.archetypes),
    {
        let ids = Q::ids();
        let rows = self.query_erased(ids.as_slice());
        proof {
            lemma_query_row_width(self@.archetypes, ids@);
        }
        let mut results: Vec<Q::Result> = Vec::new();
        let n = rows.len();
        let mut k: usize = 0;
        while k < n
            invariant
                n == rows@.len(),
                k <= n,
                ids@ == Q::spec_ids(),
                rows@.map_values(|r: QueryRow| r@) == query_rows(self@.archetypes, ids@),
                forall|i: int| 0 <= i < query_rows(self@.archetypes, ids@).len()
                    ==> (#[trigger] query_rows(self@.archetypes, ids@)[i]).1.len() == ids@.len(),
                results@ == query_results::<Q>(self@.archetypes).take(k as int),
            decreases n - k,
        {
            proof {
                assert(rows@[k as int]@ == query_rows(self@.archetypes, ids@)[k as int]);
            }
            let r = Q::decode(&rows[k].components);
            results.push(r);
            proof {
                assert(results@ =~= query_results::<Q>(self@.archetypes).take(k as int + 1));
            }
            k = k + 1;
        }
        proof {
            assert(query_results::<Q>(self@.archetypes).take(n as int) =~= query_results::<Q>(self@.archetypes));
        }
        results
    }

    /// Calls `f` with each entity whose archetype holds all the components of
    /// `Q` and its query result, in the order of [`World::query`].
    pub fn for_each<Q: Query, F: FnMut(EntityId, Q::Result)>(&self, mut f: F)
        requires
            self.wf(),
            ids_in_range(Q::spec_ids()),
            distinct_ids(Q::spec_ids()),
            forall|k: int| 0 <= k < query_rows(self@.archetypes, Q::spec_ids()).len() ==> call_requires(
                f,
                (
                    #[trigger] query_rows(self@.archetypes, Q::spec_ids())[k].0,
                    Q::spec_decode(query_rows(self@.archetypes, Q::spec_ids())[k].1),
                ),
            ),
        ensures
            forall|k: int| 0 <= k < query_rows(self@.archetypes, Q::spec_ids()).len() ==> call_ensures(
                f,
                (
                    #[trigger] query_rows(self@.archetypes, Q::spec_ids())[k].0,
                    Q::spec_decode(query_rows(self@.archetypes, Q::spec_ids())[k].1),
                ),
                (),
            ),
    {
        let ghost f0 = f;
        let ids = Q::ids();
        let rows = self.query_erased(ids.as_slice());
        proof {
            lemma_query_row_width(self@.archetypes, ids@);
        }
        let n = rows.len();
        let mut k: usize = 0;
        while k < n
            invariant
                n == rows@.len(),
                k <= n,
                ids@ == Q::spec_ids(),
                rows@.map_values(|r: QueryRow| r@) == query_rows(self@.archetypes, ids@),
                forall|i: int| 0 <= i < query_rows(self@.archetypes, ids@).len()
                    ==> (#[trigger] query_rows(self@.archetypes, ids@)[i]).1.len() == ids@.len(),
                forall|x: int| 0 <= x < query_rows(self@.archetypes, ids@).len() ==> call_requires(
                    f0,
                    (
                        #[trigger] query_rows(self@.archetypes, ids@)[x].0,
                        Q::spec_decode(query_rows(self@.archetypes, ids@)[x].1),
                    ),
                ),
                f == f0,
                forall|x: int| 0 <= x < k ==> call_ensures(
                    f0,
                    (
                        #[trigger] query_rows(self@.archetypes, ids@)[x].0,
                        Q::spec_decode(query_rows(self@.archetypes, ids@)[x].1),
                    ),
                    (),
                ),
            decreases n - k,
        {
            proof {
                assert(rows@[k as int]@ == query_rows(self@.archetypes, ids@)[k as int]);
            }
            let r = Q::decode(&rows[k].components);
            proof {
                let q = query_rows(self@.archetypes, ids@);
                assert(rows[k as int].components@.map_values(|c: Vec<u8>| c@) == q[k as int].1);
                assert(rows[k as int].entity == q[k as int].0);
            }
            f(rows[k].entity, r);
            k = k + 1;
        }
    }

    /// Grows the entity table so that it has an entry for `entity`.
    fn ensure_entity_map_capacity(&mut self, entity: EntityId)
        requires
            entity.0 < usize::MAX,
        ensures
            final(self).archetypes == old(self).archetypes,
            final(self).next_entity == old(self).next_entity,
            final(self).entity_to_archetype@.len() == if (entity.0 as int) < old(self).entity_to_archetype@.len() {
                old(self).entity_to_archetype@.len() as int
            } else {
                entity.0 as int + 1
            },
            forall|i: int| 0 <= i < final(self).entity_to_archetype@.len() ==> #[trigger] final(self).entity_to_archetype@[i]
                == if i < old(self).entity_to_archetype@.len() { old(self).entity_to_archetype@[i] } else { None },
    {
        if self.entity_to_archetype.len() <= entity.0 as usize {
            self.entity_to_archetype.resize(entity.0 as usize + 1, None);
        }
    }
}

} // verus!
