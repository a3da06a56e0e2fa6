use vstd::prelude::*;

use crate::ecs::archetype::{
    lemma_cell_len, lemma_row_bounds, id_set, ids_in_range, last_index_of, lemma_last_index_of, ArchetypeView, ColumnView, EntityId,
};
use crate::ecs::component::{erased_view, Component, ComponentId, ComponentKind, ErasedView};
use crate::ecs::world::{
    archetype_rows, erased_ids, first_match, fresh_archetype, fresh_column, lemma_first_match, query_rows, rows_for,
    ComponentWriteView, WorldView,
};

verus! {

/// Reading back a write: after `write` is applied, the written component of
/// its entity starts with the written bytes (and is exactly those bytes for
/// plain data), and every other component of every entity is unchanged.
pub proof fn lemma_write_reads_back(v: WorldView, write: ComponentWriteView, w: WorldView)
    requires
        v.wf(),
        v.can_write(write),
        v.written(write, w),
    ensures
        w.component(write.entity, write.component_id) matches Some(bytes) && bytes.take(write.bytes.len() as int) == write.bytes,
        ({
            let (a, r) = v.location(write.entity).unwrap();
            let col = v.archetypes[a as int].columns[v.archetypes[a as int].column_index(write.component_id.0 as nat).unwrap()];
            col.meta.kind == ComponentKind::Pod ==> w.component(write.entity, write.component_id) == Some(write.bytes)
        }),
        forall|e: EntityId, id: ComponentId| (e != write.entity || id != write.component_id)
            ==> #[trigger] w.component(e, id) == v.component(e, id),
{
    let (a, r) = v.location(write.entity).unwrap();
    let arch = v.archetypes[a as int];
    let new_arch = w.archetypes[a as int];
    let j = arch.column_index(write.component_id.0 as nat).unwrap();
    assert(new_arch.column_ids() =~= arch.column_ids());
    lemma_last_index_of(arch.column_ids(), write.component_id.0 as nat);
    let col = arch.columns[j];
    let cell = new_arch.columns[j].cell(r as int);
    assert(cell == write.bytes + col.cell(r as int).subrange(write.bytes.len() as int, col.size() as int));
    assert(cell.take(write.bytes.len() as int) =~= write.bytes);
    lemma_cell_len(col, r as int);
    if col.meta.kind == ComponentKind::Pod {
        assert(cell =~= write.bytes);
    }
    assert forall|e: EntityId, id: ComponentId| (e != write.entity || id != write.component_id)
        implies #[trigger] w.component(e, id) == v.component(e, id) by {
        if let Some((b, s)) = v.location(e) {
            if b == a {
                lemma_last_index_of(arch.column_ids(), id.0 as nat);
                if let Some(k) = arch.column_index(id.0 as nat) {
                    if k == j {
                        assert(id.0 == write.component_id.0);
                        assert(id == write.component_id);
                        assert(e != write.entity);
                        assert(arch.entities[s as int].0 == e.0);
                        assert(arch.entities[r as int].0 == write.entity.0);
                        assert(s != r);
                    }
                }
            }
        }
    }
}


/// Each row of a query comes from an entity of a matching archetype.
proof fn lemma_query_row_origin(archetypes: Seq<ArchetypeView>, ids: Seq<ComponentId>, k: int)
    requires
        0 <= k < query_rows(archetypes, ids).len(),
    ensures
        exists|a: int, i: int|
            0 <= a < archetypes.len() && archetypes[a].has_components(ids) && 0 <= i < archetypes[a].entities.len()
                && query_rows(archetypes, ids)[k] == #[trigger] archetype_rows(archetypes[a], ids)[i],
    decreases archetypes.len(),
{
    let d = archetypes.drop_last();
    let earlier = query_rows(d, ids);
    if k < earlier.len() {
        lemma_query_row_origin(d, ids, k);
        let (a, i) = choose|a: int, i: int|
            0 <= a < d.len() && d[a].has_components(ids) && 0 <= i < d[a].entities.len()
                && earlier[k] == #[trigger] archetype_rows(d[a], ids)[i];
        assert(d[a] == archetypes[a]);
        assert(query_rows(archetypes, ids)[k] == archetype_rows(archetypes[a], ids)[i]);
    } else {
        let a = archetypes.len() - 1;
        let i = k - earlier.len();
        assert(query_rows(archetypes, ids)[k] == archetype_rows(archetypes[a], ids)[i]);
    }
}

/// Every entity of a matching archetype has a row in the query.
proof fn lemma_query_row_present(archetypes: Seq<ArchetypeView>, ids: Seq<ComponentId>, a: int, i: int)
    requires
        0 <= a < archetypes.len(),
        archetypes[a].has_components(ids),
        0 <= i < archetypes[a].entities.len(),
    ensures
        exists|k: int| 0 <= k < query_rows(archetypes, ids).len()
            && (#[trigger] query_rows(archetypes, ids)[k]).0 == archetypes[a].entities[i],
    decreases archetypes.len(),
{
    let d = archetypes.drop_last();
    let earlier = query_rows(d, ids);
    if a < archetypes.len() - 1 {
        assert(d[a] == archetypes[a]);
        lemma_query_row_present(d, ids, a, i);
        let k = choose|k: int| 0 <= k < earlier.len() && (#[trigger] earlier[k]).0 == d[a].entities[i];
        assert(query_rows(archetypes, ids)[k] == earlier[k]);
    } else {
        let k = earlier.len() + i;
        assert(query_rows(archetypes, ids)[k] == archetype_rows(archetypes[a], ids)[i]);
    }
}

/// A query returns exactly the entities whose archetype holds all the queried
/// components, and for each the current bytes of those components, in the
/// order of the queried ids.
pub proof fn lemma_query_reads_components(v: WorldView, ids: Seq<ComponentId>)
    requires
        v.wf(),
    ensures
        forall|k: int| 0 <= k < query_rows(v.archetypes, ids).len() ==> {
            let (e, cells) = #[trigger] query_rows(v.archetypes, ids)[k];
            &&& v.location(e) matches Some((a, r)) && v.archetypes[a as int].has_components(ids)
            &&& cells.len() == ids.len()
            &&& forall|p: int| 0 <= p < ids.len() ==> v.component(e, ids[p]) == Some(#[trigger] cells[p])
        },
        forall|e: EntityId| (#[trigger] v.location(e)) matches Some((a, r)) && v.archetypes[a as int].has_components(ids)
            ==> exists|k: int| 0 <= k < query_rows(v.archetypes, ids).len() && (#[trigger] query_rows(v.archetypes, ids)[k]).0 == e,
{
    let q = query_rows(v.archetypes, ids);
    assert forall|k: int| 0 <= k < q.len() implies {
        let (e, cells) = #[trigger] q[k];
        &&& v.location(e) matches Some((a, r)) && v.archetypes[a as int].has_components(ids)
        &&& cells.len() == ids.len()
        &&& forall|p: int| 0 <= p < ids.len() ==> v.component(e, ids[p]) == Some(#[trigger] cells[p])
    } by {
        lemma_query_row_origin(v.archetypes, ids, k);
        let (a, i) = choose|a: int, i: int|
            0 <= a < v.archetypes.len() && v.archetypes[a].has_components(ids) && 0 <= i < v.archetypes[a].entities.len()
                && q[k] == #[trigger] archetype_rows(v.archetypes[a], ids)[i];
        let arch = v.archetypes[a];
        let e = arch.entities[i];
        assert(v.location(e) == Some((a as usize, i as usize)));
        assert forall|p: int| 0 <= p < ids.len() implies v.component(e, ids[p]) == Some(#[trigger] q[k].1[p]) by {
            assert(id_set(ids).contains(ids[p].0 as nat));
            assert(arch.mask.contains(ids[p].0 as nat));
        }
    }
    assert forall|e: EntityId| (#[trigger] v.location(e)) matches Some((a, r)) && v.archetypes[a as int].has_components(ids)
        implies exists|k: int| 0 <= k < q.len() && (#[trigger] q[k]).0 == e by {
        let (a, r) = v.location(e).unwrap();
        assert(v.locations[e.0 as int] == Some((a, r)));
        lemma_query_row_present(v.archetypes, ids, a as int, r as int);
    }
}


/// Appending a row of `size` bytes puts it in the first unwritten slot and
/// leaves every other slot alone.
proof fn lemma_push_one_cells(c: ColumnView, x: Seq<u8>)
    requires
        c.bytes.len() == c.len * c.size(),
        x.len() == c.size(),
    ensures
        c.push_one(x).bytes.len() == c.push_one(x).len * c.size(),
        forall|i: int| #[trigger] c.push_one(x).cell(i) == if i == c.len { x } else { c.cell(i) },
{
    let p = c.push_one(x);
    let s = c.size() as int;
    assert(p.bytes.len() == p.len * s) by (nonlinear_arith)
        requires
            p.bytes.len() == c.len * s + s,
            p.len == c.len + 1,
    ;
    assert forall|i: int| #[trigger] p.cell(i) == if i == c.len { x } else { c.cell(i) } by {
        if 0 <= i < c.len {
            lemma_row_bounds(i, c.len as int, s);
            assert(p.row(i) =~= c.row(i));
        } else if i == c.len {
            assert(i * s == c.len * s);
            assert(p.row(i) =~= x);
        }
    }
}

/// Appending rows of `size` bytes fills the slots after the last row, in
/// order, and leaves the earlier slots alone.
proof fn lemma_push_all_cells(c: ColumnView, rows: Seq<Seq<u8>>)
    requires
        c.bytes.len() == c.len * c.size(),
        forall|t: int| 0 <= t < rows.len() ==> (#[trigger] rows[t]).len() == c.size(),
    ensures
        c.push_all(rows).bytes.len() == c.push_all(rows).len * c.size(),
        c.push_all(rows).len == c.len + rows.len(),
        c.push_all(rows).meta == c.meta,
        forall|i: int| 0 <= i < c.len ==> #[trigger] c.push_all(rows).cell(i) == c.cell(i),
        forall|t: int| 0 <= t < rows.len() ==> #[trigger] c.push_all(rows).cell(c.len + t) == rows[t],
    decreases rows.len(),
{
    if rows.len() > 0 {
        let d = rows.drop_last();
        lemma_push_all_cells(c, d);
        let mid = c.push_all(d);
        lemma_push_one_cells(mid, rows.last());
        assert forall|t: int| 0 <= t < rows.len() implies #[trigger] c.push_all(rows).cell(c.len + t) == rows[t] by {
            if t < d.len() {
                assert(d[t] == rows[t]);
            }
        }
    }
}

/// The rows that spawning appends to a column have the column's row size.
proof fn lemma_rows_for_sizes(v: WorldView, a: int, comps: Seq<ErasedView>, j: int)
    requires
        v.wf(),
        v.accepts(comps),
        0 <= a < v.archetypes.len(),
        0 <= j < v.archetypes[a].columns.len(),
    ensures
        v.archetypes[a].columns[j].bytes.len() == v.archetypes[a].columns[j].len * v.archetypes[a].columns[j].size(),
        forall|t: int| 0 <= t < rows_for(comps, v.archetypes[a], j).len()
            ==> (#[trigger] rows_for(comps, v.archetypes[a], j)[t]).len() == v.archetypes[a].columns[j].size(),
    decreases comps.len(),
{
    let arch = v.archetypes[a];
    if comps.len() > 0 {
        let d = comps.drop_last();
        assert(v.accepts(d)) by {
            assert(erased_ids(d) =~= erased_ids(comps).drop_last());
            assert forall|i: int| 0 <= i < d.len() implies #[trigger] d[i] == comps[i] by {}
        }
        lemma_rows_for_sizes(v, a, d, j);
        let c = comps.last();
        if arch.column_index(c.id.0 as nat) == Some(j) {
            lemma_last_index_of(arch.column_ids(), c.id.0 as nat);
            assert(comps[comps.len() - 1] == c);
            assert(c.data.len() >= arch.columns[j].size());
        }
        let rows = rows_for(comps, arch, j);
        assert forall|t: int| 0 <= t < rows.len() implies (#[trigger] rows[t]).len() == arch.columns[j].size() by {
            if t < rows_for(d, arch, j).len() {
                assert(rows[t] == rows_for(d, arch, j)[t]);
            }
        }
    }
}

/// With distinct component ids, spawning appends at most one row to a
/// column: the component that maps to it.
proof fn lemma_rows_for_unique(comps: Seq<ErasedView>, arch: ArchetypeView, j: int)
    requires
        forall|x: int, y: int| 0 <= x < y < comps.len() ==> (#[trigger] comps[x]).id != (#[trigger] comps[y]).id,
    ensures
        forall|i: int| 0 <= i < comps.len() && arch.column_index((#[trigger] comps[i]).id.0 as nat) == Some(j)
            ==> rows_for(comps, arch, j) == seq![comps[i].data.subrange(0, arch.columns[j].size() as int)],
        (forall|i: int| 0 <= i < comps.len() ==> arch.column_index((#[trigger] comps[i]).id.0 as nat) != Some(j))
            ==> rows_for(comps, arch, j).len() == 0,
    decreases comps.len(),
{
    if comps.len() > 0 {
        let d = comps.drop_last();
        lemma_rows_for_unique(d, arch, j);
        let n = comps.len() - 1;
        assert forall|i: int| 0 <= i < comps.len() && arch.column_index((#[trigger] comps[i]).id.0 as nat) == Some(j)
            implies rows_for(comps, arch, j) == seq![comps[i].data.subrange(0, arch.columns[j].size() as int)] by {
            lemma_last_index_of(arch.column_ids(), comps[i].id.0 as nat);
            if i < n {
                assert(d[i] == comps[i]);
                if arch.column_index(comps[n].id.0 as nat) == Some(j) {
                    lemma_last_index_of(arch.column_ids(), comps[n].id.0 as nat);
                    assert(comps[n].id.0 == comps[i].id.0);
                    assert(comps[n].id == comps[i].id);
                }
            } else {
                assert forall|k: int| 0 <= k < d.len() implies arch.column_index((#[trigger] d[k]).id.0 as nat) != Some(j) by {
                    assert(d[k] == comps[k]);
                    if arch.column_index(d[k].id.0 as nat) == Some(j) {
                        lemma_last_index_of(arch.column_ids(), d[k].id.0 as nat);
                        assert(d[k].id.0 == comps[n].id.0);
                        assert(d[k].id == comps[n].id);
                    }
                }
                assert(rows_for(d, arch, j).len() == 0);
                assert(rows_for(comps, arch, j) =~= seq![comps[i].data.subrange(0, arch.columns[j].size() as int)]);
            }
        }
        if forall|i: int| 0 <= i < comps.len() ==> arch.column_index((#[trigger] comps[i]).id.0 as nat) != Some(j) {
            assert forall|k: int| 0 <= k < d.len() implies arch.column_index((#[trigger] d[k]).id.0 as nat) != Some(j) by {
                assert(d[k] == comps[k]);
            }
        }
    }
}

/// Reading back a spawn into a new archetype: each component of the new
/// entity holds the bytes it was spawned with, up to its size (the last one,
/// where an id is given twice), and no other entity's components change.
pub proof fn lemma_spawn_new_reads_back(v: WorldView, comps: Seq<ErasedView>, e: EntityId, w: WorldView)
    requires
        v.wf(),
        v.can_spawn(),
        v.accepts(comps),
        e.0 == v.next_entity,
        v.spawned(comps, e, w),
        first_match(v.archetypes, erased_ids(comps)) is None,
    ensures
        forall|i: int| 0 <= i < comps.len() && (forall|k: int| i < k < comps.len() ==> comps[k].id != comps[i].id)
            ==> w.component(e, (#[trigger] comps[i]).id) == Some(comps[i].data.subrange(0, comps[i].layout.size as int)),
        forall|x: EntityId, id: ComponentId| x != e ==> #[trigger] w.component(x, id) == v.component(x, id),
{
    let a = v.archetypes.len();
    let fresh = fresh_archetype(comps, e);
    let ids = erased_ids(comps);
    assert(w.location(e) == Some((a as usize, 0usize)));
    assert(w.archetypes[a as int] == fresh);
    assert(fresh.column_ids() =~= ids);
    assert forall|i: int| 0 <= i < comps.len() && (forall|k: int| i < k < comps.len() ==> comps[k].id != comps[i].id)
        implies w.component(e, (#[trigger] comps[i]).id) == Some(comps[i].data.subrange(0, comps[i].layout.size as int)) by {
        let id = comps[i].id;
        lemma_last_index_of(ids, id.0 as nat);
        assert(ids[i] == id);
        let j = fresh.column_index(id.0 as nat).unwrap();
        assert(ids[j] == comps[j].id);
        if j != i {
            if j < i {
                assert(ids[i].0 as nat == id.0);
            } else {
                assert(comps[j].id.0 == id.0);
                assert(comps[j].id == id);
            }
        }
        assert(fresh.columns[i] == fresh_column(comps[i]));
        assert(comps[i].data.len() >= comps[i].layout.size);
        assert(fresh.columns[i].row(0) =~= comps[i].data.subrange(0, comps[i].layout.size as int));
    }
    assert forall|x: EntityId, id: ComponentId| x != e implies #[trigger] w.component(x, id) == v.component(x, id) by {
        if let Some((b, r)) = v.location(x) {
            assert(b < v.archetypes.len());
            assert(w.archetypes[b as int] == v.archetypes[b as int]);
        }
    }
}

/// Reading back a spawn into an existing archetype whose columns all have
/// one row per entity: with distinct ids and the column layouts of the
/// components, each component of the new entity holds the bytes it was
/// spawned with, up to its size, and no other entity's components change.
pub proof fn lemma_spawn_existing_reads_back(v: WorldView, comps: Seq<ErasedView>, e: EntityId, w: WorldView)
    requires
        v.wf(),
        v.can_spawn(),
        v.accepts(comps),
        e.0 == v.next_entity,
        v.spawned(comps, e, w),
        first_match(v.archetypes, erased_ids(comps)) matches Some(a) && {
            let arch = v.archetypes[a];
            &&& forall|j: int| 0 <= j < arch.columns.len() ==> (#[trigger] arch.columns[j]).len == arch.entities.len()
            &&& forall|i: int, j: int| 0 <= i < comps.len() && 0 <= j < arch.columns.len()
                && (#[trigger] arch.columns[j]).meta.id == (#[trigger] comps[i]).id ==> arch.columns[j].size() == comps[i].layout.size
        },
        forall|x: int, y: int| 0 <= x < y < comps.len() ==> (#[trigger] comps[x]).id != (#[trigger] comps[y]).id,
    ensures
        forall|i: int| 0 <= i < comps.len()
            ==> w.component(e, (#[trigger] comps[i]).id) == Some(comps[i].data.subrange(0, comps[i].layout.size as int)),
        forall|x: EntityId, id: ComponentId| x != e ==> #[trigger] w.component(x, id) == v.component(x, id),
{
    let ids = erased_ids(comps);
    let a = first_match(v.archetypes, ids).unwrap();
    lemma_first_match(v.archetypes, ids);
    let arch = v.archetypes[a];
    let new_arch = w.archetypes[a];
    let row = arch.entities.len();
    assert(w.location(e) == Some((a as usize, row as usize)));
    assert(new_arch.column_ids() =~= arch.column_ids()) by {
        assert forall|j: int| 0 <= j < arch.columns.len() implies #[trigger] new_arch.columns[j].meta == arch.columns[j].meta by {
            super::world::lemma_push_all(arch.columns[j], rows_for(comps, arch, j));
        }
    }
    assert forall|i: int| 0 <= i < comps.len()
        implies w.component(e, (#[trigger] comps[i]).id) == Some(comps[i].data.subrange(0, comps[i].layout.size as int)) by {
        let id = comps[i].id;
        assert(ids[i] == id);
        assert(id_set(ids).contains(id.0 as nat));
        assert(arch.mask.contains(id.0 as nat));
        let j = arch.column_index(id.0 as nat).unwrap();
        lemma_last_index_of(arch.column_ids(), id.0 as nat);
        lemma_rows_for_unique(comps, arch, j);
        let rows = rows_for(comps, arch, j);
        lemma_rows_for_sizes(v, a, comps, j);
        lemma_push_all_cells(arch.columns[j], rows);
        assert(arch.columns[j].size() == comps[i].layout.size);
        assert(new_arch.columns[j].cell(arch.columns[j].len as int + 0) == rows[0]);
    }
    assert forall|x: EntityId, id: ComponentId| x != e implies #[trigger] w.component(x, id) == v.component(x, id) by {
        if let Some((b, r)) = v.location(x) {
            if b as int == a {
                assert(arch.entities[r as int].0 == x.0);
                if let Some(j) = arch.column_index(id.0 as nat) {
                    lemma_last_index_of(arch.column_ids(), id.0 as nat);
                    lemma_rows_for_sizes(v, a, comps, j);
                    lemma_push_all_cells(arch.columns[j], rows_for(comps, arch, j));
                }
            }
        }
    }
}

/// A slot holding the stored bytes of a component value, cut to the size of
/// its layout (as spawning and writing store them), decodes to that value:
/// typed reads give back what was spawned or written.
pub proof fn lemma_component_slot_decodes<C: Component>(c: &C)
    ensures
        C::spec_from_bytes(erased_view(c).data.subrange(0, C::spec_layout().size as int)) == *c,
{
    c.lemma_bytes_round_trip();
    assert(erased_view(c).data.subrange(0, C::spec_layout().size as int) =~= c.spec_bytes());
}

/// The outcome of a spawn is determined by the world, the type-erased
/// components and the entity: spawning a bundle and spawning its erased
/// components (both of which state [`WorldView::spawned`]) into equal worlds
/// give equal worlds.
pub proof fn lemma_spawn_determined(v: WorldView, comps: Seq<ErasedView>, e: EntityId, w1: WorldView, w2: WorldView)
    requires
        v.spawned(comps, e, w1),
        v.spawned(comps, e, w2),
    ensures
        w1 == w2,
{
}

/// The bytes a spawn stores for component `id`: those of the last of the
/// spawned components with that id, up to its size.
pub open spec fn spawned_bytes(comps: Seq<ErasedView>, id: ComponentId) -> Seq<u8> {
    let j = last_index_of(erased_ids(comps), id.0 as nat).unwrap();
    comps[j].data.subrange(0, comps[j].layout.size as int)
}

/// Every query after a spawn that opens a new archetype: the rows it gave
/// before, then the new entity with its spawned bytes exactly when the
/// spawned components cover the queried ones. Every other entity is seen
/// as before, with the same values, in the same order.
pub proof fn lemma_spawn_new_queries(v: WorldView, comps: Seq<ErasedView>, e: EntityId, w: WorldView, ids: Seq<ComponentId>)
    requires
        v.accepts(comps),
        v.spawned(comps, e, w),
        first_match(v.archetypes, erased_ids(comps)) is None,
    ensures
        query_rows(w.archetypes, ids) == query_rows(v.archetypes, ids) + if id_set(ids).subset_of(id_set(erased_ids(comps))) {
            seq![(e, ids.map_values(|id: ComponentId| spawned_bytes(comps, id)))]
        } else {
            Seq::<(EntityId, Seq<Seq<u8>>)>::empty()
        },
{
    let fresh = fresh_archetype(comps, e);
    let cids = erased_ids(comps);
    assert(w.archetypes.drop_last() =~= v.archetypes);
    assert(w.archetypes.last() == fresh);
    assert(fresh.column_ids() =~= cids);
    if fresh.has_components(ids) {
        let rows = archetype_rows(fresh, ids);
        let expect = seq![(e, ids.map_values(|id: ComponentId| spawned_bytes(comps, id)))];
        assert forall|p: int| 0 <= p < ids.len() implies #[trigger] rows[0].1[p] == expect[0].1[p] by {
            let id = ids[p];
            assert(id_set(ids).contains(id.0 as nat));
            assert(id_set(cids).contains(id.0 as nat));
            lemma_last_index_of(cids, id.0 as nat);
            let j = last_index_of(cids, id.0 as nat).unwrap();
            let c = comps[j];
            assert(fresh.columns[j] == fresh_column(c));
            assert(c.data.len() >= c.layout.size);
            assert(0 * (c.layout.size as int) == 0);
            assert(fresh.columns[j].cell(0) =~= c.data.subrange(0, c.layout.size as int));
        }
        assert(rows[0].1 =~= expect[0].1);
        assert(rows =~= expect);
    }
}

} // verus!
