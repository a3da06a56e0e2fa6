//! What the tuple bundles and tuple queries do with each of their elements:
//! a bundle spawns every one of its components, and a query decodes each of
//! its results from the bytes of its own component.

use vstd::prelude::*;

use crate::ecs::archetype::EntityId;
use crate::ecs::component::{erased_view, Component, ComponentsBundle, ErasedView};
use crate::ecs::laws::{lemma_query_reads_components, lemma_spawn_new_reads_back};
use crate::ecs::world::{erased_ids, first_match, query_results, query_rows, Query, WorldView};

verus! {

/// One element of a spawned bundle: when no later component has its id, the
/// new entity's component of that id holds the element's bytes and reads
/// back as the element.
proof fn lemma_spawned_element<C: Component>(v: WorldView, comps: Seq<ErasedView>, e: EntityId, w: WorldView, i: int, c: &C)
    requires
        v.wf(),
        v.can_spawn(),
        v.accepts(comps),
        e.0 == v.next_entity,
        v.spawned(comps, e, w),
        first_match(v.archetypes, erased_ids(comps)) is None,
        0 <= i < comps.len(),
        comps[i] == erased_view(c),
        forall|k: int| i < k < comps.len() ==> (#[trigger] comps[k]).id != comps[i].id,
    ensures
        w.component(e, C::spec_component_id()) == Some(c.spec_bytes()),
        C::spec_from_bytes(w.component(e, C::spec_component_id()).unwrap()) == *c,
{
    lemma_spawn_new_reads_back(v, comps, e, w);
    assert(w.component(e, comps[i].id) == Some(comps[i].data.subrange(0, comps[i].layout.size as int)));
    c.lemma_bytes_round_trip();
    assert(comps[i].data.subrange(0, comps[i].layout.size as int) =~= c.spec_bytes());
}

/// A bundle of 1 component erases to each of its elements, in order: the
/// `i`-th erased component has the id, bytes, layout and kind of element `i`.
pub proof fn lemma_bundle1_erased<A: Component>(t: (A,))
    ensures
        t.spec_erased().len() == 1,
        t.spec_erased()[0].id == A::spec_component_id() && t.spec_erased()[0].data == t.0.spec_bytes()
            && t.spec_erased()[0].layout == A::spec_layout() && t.spec_erased()[0].kind == A::spec_kind(),
{
}

/// Spawning a bundle of 1 component with distinct ids into a new archetype
/// stores every element: the new entity's component of each element's id
/// holds that element's bytes and reads back as that element.
pub proof fn lemma_spawn_bundle1_reads_back<A: Component>(v: WorldView, t: (A,), e: EntityId, w: WorldView)
    requires
        v.wf(),
        v.can_spawn(),
        v.accepts(t.spec_erased()),
        e.0 == v.next_entity,
        v.spawned(t.spec_erased(), e, w),
        first_match(v.archetypes, erased_ids(t.spec_erased())) is None,

    ensures
        w.component(e, A::spec_component_id()) == Some(t.0.spec_bytes())
            && A::spec_from_bytes(w.component(e, A::spec_component_id()).unwrap()) == t.0,
{
    let comps = t.spec_erased();
    lemma_bundle1_erased(t);
    assert(w.component(e, A::spec_component_id()) == Some(t.0.spec_bytes()) && A::spec_from_bytes(w.component(e, A::spec_component_id()).unwrap()) == t.0) by {
        lemma_spawned_element(v, comps, e, w, 0, &t.0);
    }
}

/// A bundle of 2 components erases to each of its elements, in order: the
/// `i`-th erased component has the id, bytes, layout and kind of element `i`.
pub proof fn lemma_bundle2_erased<A: Component, B: Component>(t: (A, B))
    ensures
        t.spec_erased().len() == 2,
        t.spec_erased()[0].id == A::spec_component_id() && t.spec_erased()[0].data == t.0.spec_bytes()
            && t.spec_erased()[0].layout == A::spec_layout() && t.spec_erased()[0].kind == A::spec_kind(),
        t.spec_erased()[1].id == B::spec_component_id() && t.spec_erased()[1].data == t.1.spec_bytes()
            && t.spec_erased()[1].layout == B::spec_layout() && t.spec_erased()[1].kind == B::spec_kind(),
{
}

/// Spawning a bundle of 2 components with distinct ids into a new archetype
/// stores every element: the new entity's component of each element's id
/// holds that element's bytes and reads back as that element.
pub proof fn lemma_spawn_bundle2_reads_back<A: Component, B: Component>(v: WorldView, t: (A, B), e: EntityId, w: WorldView)
    requires
        v.wf(),
        v.can_spawn(),
        v.accepts(t.spec_erased()),
        e.0 == v.next_entity,
        v.spawned(t.spec_erased(), e, w),
        first_match(v.archetypes, erased_ids(t.spec_erased())) is None,
        A::spec_component_id() != B::spec_component_id(),
    ensures
        w.component(e, A::spec_component_id()) == Some(t.0.spec_bytes())
            && A::spec_from_bytes(w.component(e, A::spec_component_id()).unwrap()) == t.0,
        w.component(e, B::spec_component_id()) == Some(t.1.spec_bytes())
            && B::spec_from_bytes(w.component(e, B::spec_component_id()).unwrap()) == t.1,
{
    let comps = t.spec_erased();
    lemma_bundle2_erased(t);
    assert(w.component(e, A::spec_component_id()) == Some(t.0.spec_bytes()) && A::spec_from_bytes(w.component(e, A::spec_component_id()).unwrap()) == t.0) by {
        assert(comps[1].id != comps[0].id);
        lemma_spawned_element(v, comps, e, w, 0, &t.0);
    }
    assert(w.component(e, B::spec_component_id()) == Some(t.1.spec_bytes()) && B::spec_from_bytes(w.component(e, B::spec_component_id()).unwrap()) == t.1) by {
        lemma_spawned_element(v, comps, e, w, 1, &t.1);
    }
}

/// A bundle of 3 components erases to each of its elements, in order: the
/// `i`-th erased component has the id, bytes, layout and kind of element `i`.
pub proof fn lemma_bundle3_erased<A: Component, B: Component, C: Component>(t: (A, B, C))
    ensures
        t.spec_erased().len() == 3,
        t.spec_erased()[0].id == A::spec_component_id() && t.spec_erased()[0].data == t.0.spec_bytes()
            && t.spec_erased()[0].layout == A::spec_layout() && t.spec_erased()[0].kind == A::spec_kind(),
        t.spec_erased()[1].id == B::spec_component_id() && t.spec_erased()[1].data == t.1.spec_bytes()
            && t.spec_erased()[1].layout == B::spec_layout() && t.spec_erased()[1].kind == B::spec_kind(),
        t.spec_erased()[2].id == C::spec_component_id() && t.spec_erased()[2].data == t.2.spec_bytes()
            && t.spec_erased()[2].layout == C::spec_layout() && t.spec_erased()[2].kind == C::spec_kind(),
{
}

/// Spawning a bundle of 3 components with distinct ids into a new archetype
/// stores every element: the new entity's component of each element's id
/// holds that element's bytes and reads back as that element.
pub proof fn lemma_spawn_bundle3_reads_back<A: Component, B: Component, C: Component>(v: WorldView, t: (A, B, C), e: EntityId, w: WorldView)
    requires
        v.wf(),
        v.can_spawn(),
        v.accepts(t.spec_erased()),
        e.0 == v.next_entity,
        v.spawned(t.spec_erased(), e, w),
        first_match(v.archetypes, erased_ids(t.spec_erased())) is None,
        A::spec_component_id() != B::spec_component_id(),
        A::spec_component_id() != C::spec_component_id(),
        B::spec_component_id() != C::spec_component_id(),
    ensures
        w.component(e, A::spec_component_id()) == Some(t.0.spec_bytes())
            && A::spec_from_bytes(w.component(e, A::spec_component_id()).unwrap()) == t.0,
        w.component(e, B::spec_component_id()) == Some(t.1.spec_bytes())
            && B::spec_from_bytes(w.component(e, B::spec_component_id()).unwrap()) == t.1,
        w.component(e, C::spec_component_id()) == Some(t.2.spec_bytes())
            && C::spec_from_bytes(w.component(e, C::spec_component_id()).unwrap()) == t.2,
{
    let comps = t.spec_erased();
    lemma_bundle3_erased(t);
    assert(w.component(e, A::spec_component_id()) == Some(t.0.spec_bytes()) && A::spec_from_bytes(w.component(e, A::spec_component_id()).unwrap()) == t.0) by {
        assert(comps[1].id != comps[0].id && comps[2].id != comps[0].id);
        lemma_spawned_element(v, comps, e, w, 0, &t.0);
    }
    assert(w.component(e, B::spec_component_id()) == Some(t.1.spec_bytes()) && B::spec_from_bytes(w.component(e, B::spec_component_id()).unwrap()) == t.1) by {
        assert(comps[2].id != comps[1].id);
        lemma_spawned_element(v, comps, e, w, 1, &t.1);
    }
    assert(w.component(e, C::spec_component_id()) == Some(t.2.spec_bytes()) && C::spec_from_bytes(w.component(e, C::spec_component_id()).unwrap()) == t.2) by {
        lemma_spawned_element(v, comps, e, w, 2, &t.2);
    }
}

/// A bundle of 4 components erases to each of its elements, in order: the
/// `i`-th erased component has the id, bytes, layout and kind of element `i`.
pub proof fn lemma_bundle4_erased<A: Component, B: Component, C: Component, D: Component>(t: (A, B, C, D))
    ensures
        t.spec_erased().len() == 4,
        t.spec_erased()[0].id == A::spec_component_id() && t.spec_erased()[0].data == t.0.spec_bytes()
            && t.spec_erased()[0].layout == A::spec_layout() && t.spec_erased()[0].kind == A::spec_kind(),
        t.spec_erased()[1].id == B::spec_component_id() && t.spec_erased()[1].data == t.1.spec_bytes()
            && t.spec_erased()[1].layout == B::spec_layout() && t.spec_erased()[1].kind == B::spec_kind(),
        t.spec_erased()[2].id == C::spec_component_id() && t.spec_erased()[2].data == t.2.spec_bytes()
            && t.spec_erased()[2].layout == C::spec_layout() && t.spec_erased()[2].kind == C::spec_kind(),
        t.spec_erased()[3].id == D::spec_component_id() && t.spec_erased()[3].data == t.3.spec_bytes()
            && t.spec_erased()[3].layout == D::spec_layout() && t.spec_erased()[3].kind == D::spec_kind(),
{
}

/// Spawning a bundle of 4 components with distinct ids into a new archetype
/// stores every element: the new entity's component of each element's id
/// holds that element's bytes and reads back as that element.
pub proof fn lemma_spawn_bundle4_reads_back<A: Component, B: Component, C: Component, D: Component>(v: WorldView, t: (A, B, C, D), e: EntityId, w: WorldView)
    requires
        v.wf(),
        v.can_spawn(),
        v.accepts(t.spec_erased()),
        e.0 == v.next_entity,
        v.spawned(t.spec_erased(), e, w),
        first_match(v.archetypes, erased_ids(t.spec_erased())) is None,
        A::spec_component_id() != B::spec_component_id(),
        A::spec_component_id() != C::spec_component_id(),
        A::spec_component_id() != D::spec_component_id(),
        B::spec_component_id() != C::spec_component_id(),
        B::spec_component_id() != D::spec_component_id(),
        C::spec_component_id() != D::spec_component_id(),
    ensures
        w.component(e, A::spec_component_id()) == Some(t.0.spec_bytes())
            && A::spec_from_bytes(w.component(e, A::spec_component_id()).unwrap()) == t.0,
        w.component(e, B::spec_component_id()) == Some(t.1.spec_bytes())
            && B::spec_from_bytes(w.component(e, B::spec_component_id()).unwrap()) == t.1,
        w.component(e, C::spec_component_id()) == Some(t.2.spec_bytes())
            && C::spec_from_bytes(w.component(e, C::spec_component_id()).unwrap()) == t.2,
        w.component(e, D::spec_component_id()) == Some(t.3.spec_bytes())
            && D::spec_from_bytes(w.component(e, D::spec_component_id()).unwrap()) == t.3,
{
    let comps = t.spec_erased();
    lemma_bundle4_erased(t);
    assert(w.component(e, A::spec_component_id()) == Some(t.0.spec_bytes()) && A::spec_from_bytes(w.component(e, A::spec_component_id()).unwrap()) == t.0) by {
        assert(comps[1].id != comps[0].id && comps[2].id != comps[0].id && comps[3].id != comps[0].id);
        lemma_spawned_element(v, comps, e, w, 0, &t.0);
    }
    assert(w.component(e, B::spec_component_id()) == Some(t.1.spec_bytes()) && B::spec_from_bytes(w.component(e, B::spec_component_id()).unwrap()) == t.1) by {
        assert(comps[2].id != comps[1].id && comps[3].id != comps[1].id);
        lemma_spawned_element(v, comps, e, w, 1, &t.1);
    }
    assert(w.component(e, C::spec_component_id()) == Some(t.2.spec_bytes()) && C::spec_from_bytes(w.component(e, C::spec_component_id()).unwrap()) == t.2) by {
        assert(comps[3].id != comps[2].id);
        lemma_spawned_element(v, comps, e, w, 2, &t.2);
    }
    assert(w.component(e, D::spec_component_id()) == Some(t.3.spec_bytes()) && D::spec_from_bytes(w.component(e, D::spec_component_id()).unwrap()) == t.3) by {
        lemma_spawned_element(v, comps, e, w, 3, &t.3);
    }
}

/// A bundle of 5 components erases to each of its elements, in order: the
/// `i`-th erased component has the id, bytes, layout and kind of element `i`.
pub proof fn lemma_bundle5_erased<A: Component, B: Component, C: Component, D: Component, E: Component>(t: (A, B, C, D, E))
    ensures
        t.spec_erased().len() == 5,
        t.spec_erased()[0].id == A::spec_component_id() && t.spec_erased()[0].data == t.0.spec_bytes()
            && t.spec_erased()[0].layout == A::spec_layout() && t.spec_erased()[0].kind == A::spec_kind(),
        t.spec_erased()[1].id == B::spec_component_id() && t.spec_erased()[1].data == t.1.spec_bytes()
            && t.spec_erased()[1].layout == B::spec_layout() && t.spec_erased()[1].kind == B::spec_kind(),
        t.spec_erased()[2].id == C::spec_component_id() && t.spec_erased()[2].data == t.2.spec_bytes()
            && t.spec_erased()[2].layout == C::spec_layout() && t.spec_erased()[2].kind == C::spec_kind(),
        t.spec_erased()[3].id == D::spec_component_id() && t.spec_erased()[3].data == t.3.spec_bytes()
            && t.spec_erased()[3].layout == D::spec_layout() && t.spec_erased()[3].kind == D::spec_kind(),
        t.spec_erased()[4].id == E::spec_component_id() && t.spec_erased()[4].data == t.4.spec_bytes()
            && t.spec_erased()[4].layout == E::spec_layout() && t.spec_erased()[4].kind == E::spec_kind(),
{
}

/// Spawning a bundle of 5 components with distinct ids into a new archetype
/// stores every element: the new entity's component of each element's id
/// holds that element's bytes and reads back as that element.
pub proof fn lemma_spawn_bundle5_reads_back<A: Component, B: Component, C: Component, D: Component, E: Component>(v: WorldView, t: (A, B, C, D, E), e: EntityId, w: WorldView)
    requires
        v.wf(),
        v.can_spawn(),
        v.accepts(t.spec_erased()),
        e.0 == v.next_entity,
        v.spawned(t.spec_erased(), e, w),
        first_match(v.archetypes, erased_ids(t.spec_erased())) is None,
        A::spec_component_id() != B::spec_component_id(),
        A::spec_component_id() != C::spec_component_id(),
        A::spec_component_id() != D::spec_component_id(),
        A::spec_component_id() != E::spec_component_id(),
        B::spec_component_id() != C::spec_component_id(),
        B::spec_component_id() != D::spec_component_id(),
        B::spec_component_id() != E::spec_component_id(),
        C::spec_component_id() != D::spec_component_id(),
        C::spec_component_id() != E::spec_component_id(),
        D::spec_component_id() != E::spec_component_id(),
    ensures
        w.component(e, A::spec_component_id()) == Some(t.0.spec_bytes())
            && A::spec_from_bytes(w.component(e, A::spec_component_id()).unwrap()) == t.0,
        w.component(e, B::spec_component_id()) == Some(t.1.spec_bytes())
            && B::spec_from_bytes(w.component(e, B::spec_component_id()).unwrap()) == t.1,
        w.component(e, C::spec_component_id()) == Some(t.2.spec_bytes())
            && C::spec_from_bytes(w.component(e, C::spec_component_id()).unwrap()) == t.2,
        w.component(e, D::spec_component_id()) == Some(t.3.spec_bytes())
            && D::spec_from_bytes(w.component(e, D::spec_component_id()).unwrap()) == t.3,
        w.component(e, E::spec_component_id()) == Some(t.4.spec_bytes())
            && E::spec_from_bytes(w.component(e, E::spec_component_id()).unwrap()) == t.4,
{
    let comps = t.spec_erased();
    lemma_bundle5_erased(t);
    assert(w.component(e, A::spec_component_id()) == Some(t.0.spec_bytes()) && A::spec_from_bytes(w.component(e, A::spec_component_id()).unwrap()) == t.0) by {
        assert(comps[1].id != comps[0].id && comps[2].id != comps[0].id && comps[3].id != comps[0].id && comps[4].id != comps[0].id);
        lemma_spawned_element(v, comps, e, w, 0, &t.0);
    }
    assert(w.component(e, B::spec_component_id()) == Some(t.1.spec_bytes()) && B::spec_from_bytes(w.component(e, B::spec_component_id()).unwrap()) == t.1) by {
        assert(comps[2].id != comps[1].id && comps[3].id != comps[1].id && comps[4].id != comps[1].id);
        lemma_spawned_element(v, comps, e, w, 1, &t.1);
    }
    assert(w.component(e, C::spec_component_id()) == Some(t.2.spec_bytes()) && C::spec_from_bytes(w.component(e, C::spec_component_id()).unwrap()) == t.2) by {
        assert(comps[3].id != comps[2].id && comps[4].id != comps[2].id);
        lemma_spawned_element(v, comps, e, w, 2, &t.2);
    }
    assert(w.component(e, D::spec_component_id()) == Some(t.3.spec_bytes()) && D::spec_from_bytes(w.component(e, D::spec_component_id()).unwrap()) == t.3) by {
        assert(comps[4].id != comps[3].id);
        lemma_spawned_element(v, comps, e, w, 3, &t.3);
    }
    assert(w.component(e, E::spec_component_id()) == Some(t.4.spec_bytes()) && E::spec_from_bytes(w.component(e, E::spec_component_id()).unwrap()) == t.4) by {
        lemma_spawned_element(v, comps, e, w, 4, &t.4);
    }
}

/// A bundle of 6 components erases to each of its elements, in order: the
/// `i`-th erased component has the id, bytes, layout and kind of element `i`.
pub proof fn lemma_bundle6_erased<A: Component, B: Component, C: Component, D: Component, E: Component, F: Component>(t: (A, B, C, D, E, F))
    ensures
        t.spec_erased().len() == 6,
        t.spec_erased()[0].id == A::spec_component_id() && t.spec_erased()[0].data == t.0.spec_bytes()
            && t.spec_erased()[0].layout == A::spec_layout() && t.spec_erased()[0].kind == A::spec_kind(),
        t.spec_erased()[1].id == B::spec_component_id() && t.spec_erased()[1].data == t.1.spec_bytes()
            && t.spec_erased()[1].layout == B::spec_layout() && t.spec_erased()[1].kind == B::spec_kind(),
        t.spec_erased()[2].id == C::spec_component_id() && t.spec_erased()[2].data == t.2.spec_bytes()
            && t.spec_erased()[2].layout == C::spec_layout() && t.spec_erased()[2].kind == C::spec_kind(),
        t.spec_erased()[3].id == D::spec_component_id() && t.spec_erased()[3].data == t.3.spec_bytes()
            && t.spec_erased()[3].layout == D::spec_layout() && t.spec_erased()[3].kind == D::spec_kind(),
        t.spec_erased()[4].id == E::spec_component_id() && t.spec_erased()[4].data == t.4.spec_bytes()
            && t.spec_erased()[4].layout == E::spec_layout() && t.spec_erased()[4].kind == E::spec_kind(),
        t.spec_erased()[5].id == F::spec_component_id() && t.spec_erased()[5].data == t.5.spec_bytes()
            && t.spec_erased()[5].layout == F::spec_layout() && t.spec_erased()[5].kind == F::spec_kind(),
{
}

/// Spawning a bundle of 6 components with distinct ids into a new archetype
/// stores every element: the new entity's component of each element's id
/// holds that element's bytes and reads back as that element.
pub proof fn lemma_spawn_bundle6_reads_back<A: Component, B: Component, C: Component, D: Component, E: Component, F: Component>(v: WorldView, t: (A, B, C, D, E, F), e: EntityId, w: WorldView)
    requires
        v.wf(),
        v.can_spawn(),
        v.accepts(t.spec_erased()),
        e.0 == v.next_entity,
        v.spawned(t.spec_erased(), e, w),
        first_match(v.archetypes, erased_ids(t.spec_erased())) is None,
        A::spec_component_id() != B::spec_component_id(),
        A::spec_component_id() != C::spec_component_id(),
        A::spec_component_id() != D::spec_component_id(),
        A::spec_component_id() != E::spec_component_id(),
        A::spec_component_id() != F::spec_component_id(),
        B::spec_component_id() != C::spec_component_id(),
        B::spec_component_id() != D::spec_component_id(),
        B::spec_component_id() != E::spec_component_id(),
        B::spec_component_id() != F::spec_component_id(),
        C::spec_component_id() != D::spec_component_id(),
        C::spec_component_id() != E::spec_component_id(),
        C::spec_component_id() != F::spec_component_id(),
        D::spec_component_id() != E::spec_component_id(),
        D::spec_component_id() != F::spec_component_id(),
        E::spec_component_id() != F::spec_component_id(),
    ensures
        w.component(e, A::spec_component_id()) == Some(t.0.spec_bytes())
            && A::spec_from_bytes(w.component(e, A::spec_component_id()).unwrap()) == t.0,
        w.component(e, B::spec_component_id()) == Some(t.1.spec_bytes())
            && B::spec_from_bytes(w.component(e, B::spec_component_id()).unwrap()) == t.1,
        w.component(e, C::spec_component_id()) == Some(t.2.spec_bytes())
            && C::spec_from_bytes(w.component(e, C::spec_component_id()).unwrap()) == t.2,
        w.component(e, D::spec_component_id()) == Some(t.3.spec_bytes())
            && D::spec_from_bytes(w.component(e, D::spec_component_id()).unwrap()) == t.3,
        w.component(e, E::spec_component_id()) == Some(t.4.spec_bytes())
            && E::spec_from_bytes(w.component(e, E::spec_component_id()).unwrap()) == t.4,
        w.component(e, F::spec_component_id()) == Some(t.5.spec_bytes())
            && F::spec_from_bytes(w.component(e, F::spec_component_id()).unwrap()) == t.5,
{
    let comps = t.spec_erased();
    lemma_bundle6_erased(t);
    assert(w.component(e, A::spec_component_id()) == Some(t.0.spec_bytes()) && A::spec_from_bytes(w.component(e, A::spec_component_id()).unwrap()) == t.0) by {
        assert(comps[1].id != comps[0].id && comps[2].id != comps[0].id && comps[3].id != comps[0].id && comps[4].id != comps[0].id && comps[5].id != comps[0].id);
        lemma_spawned_element(v, comps, e, w, 0, &t.0);
    }
    assert(w.component(e, B::spec_component_id()) == Some(t.1.spec_bytes()) && B::spec_from_bytes(w.component(e, B::spec_component_id()).unwrap()) == t.1) by {
        assert(comps[2].id != comps[1].id && comps[3].id != comps[1].id && comps[4].id != comps[1].id && comps[5].id != comps[1].id);
        lemma_spawned_element(v, comps, e, w, 1, &t.1);
    }
    assert(w.component(e, C::spec_component_id()) == Some(t.2.spec_bytes()) && C::spec_from_bytes(w.component(e, C::spec_component_id()).unwrap()) == t.2) by {
        assert(comps[3].id != comps[2].id && comps[4].id != comps[2].id && comps[5].id != comps[2].id);
        lemma_spawned_element(v, comps, e, w, 2, &t.2);
    }
    assert(w.component(e, D::spec_component_id()) == Some(t.3.spec_bytes()) && D::spec_from_bytes(w.component(e, D::spec_component_id()).unwrap()) == t.3) by {
        assert(comps[4].id != comps[3].id && comps[5].id != comps[3].id);
        lemma_spawned_element(v, comps, e, w, 3, &t.3);
    }
    assert(w.component(e, E::spec_component_id()) == Some(t.4.spec_bytes()) && E::spec_from_bytes(w.component(e, E::spec_component_id()).unwrap()) == t.4) by {
        assert(comps[5].id != comps[4].id);
        lemma_spawned_element(v, comps, e, w, 4, &t.4);
    }
    assert(w.component(e, F::spec_component_id()) == Some(t.5.spec_bytes()) && F::spec_from_bytes(w.component(e, F::spec_component_id()).unwrap()) == t.5) by {
        lemma_spawned_element(v, comps, e, w, 5, &t.5);
    }
}

/// A bundle of 7 components erases to each of its elements, in order: the
/// `i`-th erased component has the id, bytes, layout and kind of element `i`.
pub proof fn lemma_bundle7_erased<A: Component, B: Component, C: Component, D: Component, E: Component, F: Component, G: Component>(t: (A, B, C, D, E, F, G))
    ensures
        t.spec_erased().len() == 7,
        t.spec_erased()[0].id == A::spec_component_id() && t.spec_erased()[0].data == t.0.spec_bytes()
            && t.spec_erased()[0].layout == A::spec_layout() && t.spec_erased()[0].kind == A::spec_kind(),
        t.spec_erased()[1].id == B::spec_component_id() && t.spec_erased()[1].data == t.1.spec_bytes()
            && t.spec_erased()[1].layout == B::spec_layout() && t.spec_erased()[1].kind == B::spec_kind(),
        t.spec_erased()[2].id == C::spec_component_id() && t.spec_erased()[2].data == t.2.spec_bytes()
            && t.spec_erased()[2].layout == C::spec_layout() && t.spec_erased()[2].kind == C::spec_kind(),
        t.spec_erased()[3].id == D::spec_component_id() && t.spec_erased()[3].data == t.3.spec_bytes()
            && t.spec_erased()[3].layout == D::spec_layout() && t.spec_erased()[3].kind == D::spec_kind(),
        t.spec_erased()[4].id == E::spec_component_id() && t.spec_erased()[4].data == t.4.spec_bytes()
            && t.spec_erased()[4].layout == E::spec_layout() && t.spec_erased()[4].kind == E::spec_kind(),
        t.spec_erased()[5].id == F::spec_component_id() && t.spec_erased()[5].data == t.5.spec_bytes()
            && t.spec_erased()[5].layout == F::spec_layout() && t.spec_erased()[5].kind == F::spec_kind(),
        t.spec_erased()[6].id == G::spec_component_id() && t.spec_erased()[6].data == t.6.spec_bytes()
            && t.spec_erased()[6].layout == G::spec_layout() && t.spec_erased()[6].kind == G::spec_kind(),
{
}

/// Spawning a bundle of 7 components with distinct ids into a new archetype
/// stores every element: the new entity's component of each element's id
/// holds that element's bytes and reads back as that element.
pub proof fn lemma_spawn_bundle7_reads_back<A: Component, B: Component, C: Component, D: Component, E: Component, F: Component, G: Component>(v: WorldView, t: (A, B, C, D, E, F, G), e: EntityId, w: WorldView)
    requires
        v.wf(),
        v.can_spawn(),
        v.accepts(t.spec_erased()),
        e.0 == v.next_entity,
        v.spawned(t.spec_erased(), e, w),
        first_match(v.archetypes, erased_ids(t.spec_erased())) is None,
        A::spec_component_id() != B::spec_component_id(),
        A::spec_component_id() != C::spec_component_id(),
        A::spec_component_id() != D::spec_component_id(),
        A::spec_component_id() != E::spec_component_id(),
        A::spec_component_id() != F::spec_component_id(),
        A::spec_component_id() != G::spec_component_id(),
        B::spec_component_id() != C::spec_component_id(),
        B::spec_component_id() != D::spec_component_id(),
        B::spec_component_id() != E::spec_component_id(),
        B::spec_component_id() != F::spec_component_id(),
        B::spec_component_id() != G::spec_component_id(),
        C::spec_component_id() != D::spec_component_id(),
        C::spec_component_id() != E::spec_component_id(),
        C::spec_component_id() != F::spec_component_id(),
        C::spec_component_id() != G::spec_component_id(),
        D::spec_component_id() != E::spec_component_id(),
        D::spec_component_id() != F::spec_component_id(),
        D::spec_component_id() != G::spec_component_id(),
        E::spec_component_id() != F::spec_component_id(),
        E::spec_component_id() != G::spec_component_id(),
        F::spec_component_id() != G::spec_component_id(),
    ensures
        w.component(e, A::spec_component_id()) == Some(t.0.spec_bytes())
            && A::spec_from_bytes(w.component(e, A::spec_component_id()).unwrap()) == t.0,
        w.component(e, B::spec_component_id()) == Some(t.1.spec_bytes())
            && B::spec_from_bytes(w.component(e, B::spec_component_id()).unwrap()) == t.1,
        w.component(e, C::spec_component_id()) == Some(t.2.spec_bytes())
            && C::spec_from_bytes(w.component(e, C::spec_component_id()).unwrap()) == t.2,
        w.component(e, D::spec_component_id()) == Some(t.3.spec_bytes())
            && D::spec_from_bytes(w.component(e, D::spec_component_id()).unwrap()) == t.3,
        w.component(e, E::spec_component_id()) == Some(t.4.spec_bytes())
            && E::spec_from_bytes(w.component(e, E::spec_component_id()).unwrap()) == t.4,
        w.component(e, F::spec_component_id()) == Some(t.5.spec_bytes())
            && F::spec_from_bytes(w.component(e, F::spec_component_id()).unwrap()) == t.5,
        w.component(e, G::spec_component_id()) == Some(t.6.spec_bytes())
            && G::spec_from_bytes(w.component(e, G::spec_component_id()).unwrap()) == t.6,
{
    let comps = t.spec_erased();
    lemma_bundle7_erased(t);
    assert(w.component(e, A::spec_component_id()) == Some(t.0.spec_bytes()) && A::spec_from_bytes(w.component(e, A::spec_component_id()).unwrap()) == t.0) by {
        assert(comps[1].id != comps[0].id && comps[2].id != comps[0].id && comps[3].id != comps[0].id && comps[4].id != comps[0].id && comps[5].id != comps[0].id && comps[6].id != comps[0].id);
        lemma_spawned_element(v, comps, e, w, 0, &t.0);
    }
    assert(w.component(e, B::spec_component_id()) == Some(t.1.spec_bytes()) && B::spec_from_bytes(w.component(e, B::spec_component_id()).unwrap()) == t.1) by {
        assert(comps[2].id != comps[1].id && comps[3].id != comps[1].id && comps[4].id != comps[1].id && comps[5].id != comps[1].id && comps[6].id != comps[1].id);
        lemma_spawned_element(v, comps, e, w, 1, &t.1);
    }
    assert(w.component(e, C::spec_component_id()) == Some(t.2.spec_bytes()) && C::spec_from_bytes(w.component(e, C::spec_component_id()).unwrap()) == t.2) by {
        assert(comps[3].id != comps[2].id && comps[4].id != comps[2].id && comps[5].id != comps[2].id && comps[6].id != comps[2].id);
        lemma_spawned_element(v, comps, e, w, 2, &t.2);
    }
    assert(w.component(e, D::spec_component_id()) == Some(t.3.spec_bytes()) && D::spec_from_bytes(w.component(e, D::spec_component_id()).unwrap()) == t.3) by {
        assert(comps[4].id != comps[3].id && comps[5].id != comps[3].id && comps[6].id != comps[3].id);
        lemma_spawned_element(v, comps, e, w, 3, &t.3);
    }
    assert(w.component(e, E::spec_component_id()) == Some(t.4.spec_bytes()) && E::spec_from_bytes(w.component(e, E::spec_component_id()).unwrap()) == t.4) by {
        assert(comps[5].id != comps[4].id && comps[6].id != comps[4].id);
        lemma_spawned_element(v, comps, e, w, 4, &t.4);
    }
    assert(w.component(e, F::spec_component_id()) == Some(t.5.spec_bytes()) && F::spec_from_bytes(w.component(e, F::spec_component_id()).unwrap()) == t.5) by {
        assert(comps[6].id != comps[5].id);
        lemma_spawned_element(v, comps, e, w, 5, &t.5);
    }
    assert(w.component(e, G::spec_component_id()) == Some(t.6.spec_bytes()) && G::spec_from_bytes(w.component(e, G::spec_component_id()).unwrap()) == t.6) by {
        lemma_spawned_element(v, comps, e, w, 6, &t.6);
    }
}

/// A bundle of 8 components erases to each of its elements, in order: the
/// `i`-th erased component has the id, bytes, layout and kind of element `i`.
pub proof fn lemma_bundle8_erased<A: Component, B: Component, C: Component, D: Component, E: Component, F: Component, G: Component, H: Component>(t: (A, B, C, D, E, F, G, H))
    ensures
        t.spec_erased().len() == 8,
        t.spec_erased()[0].id == A::spec_component_id() && t.spec_erased()[0].data == t.0.spec_bytes()
            && t.spec_erased()[0].layout == A::spec_layout() && t.spec_erased()[0].kind == A::spec_kind(),
        t.spec_erased()[1].id == B::spec_component_id() && t.spec_erased()[1].data == t.1.spec_bytes()
            && t.spec_erased()[1].layout == B::spec_layout() && t.spec_erased()[1].kind == B::spec_kind(),
        t.spec_erased()[2].id == C::spec_component_id() && t.spec_erased()[2].data == t.2.spec_bytes()
            && t.spec_erased()[2].layout == C::spec_layout() && t.spec_erased()[2].kind == C::spec_kind(),
        t.spec_erased()[3].id == D::spec_component_id() && t.spec_erased()[3].data == t.3.spec_bytes()
            && t.spec_erased()[3].layout == D::spec_layout() && t.spec_erased()[3].kind == D::spec_kind(),
        t.spec_erased()[4].id == E::spec_component_id() && t.spec_erased()[4].data == t.4.spec_bytes()
            && t.spec_erased()[4].layout == E::spec_layout() && t.spec_erased()[4].kind == E::spec_kind(),
        t.spec_erased()[5].id == F::spec_component_id() && t.spec_erased()[5].data == t.5.spec_bytes()
            && t.spec_erased()[5].layout == F::spec_layout() && t.spec_erased()[5].kind == F::spec_kind(),
        t.spec_erased()[6].id == G::spec_component_id() && t.spec_erased()[6].data == t.6.spec_bytes()
            && t.spec_erased()[6].layout == G::spec_layout() && t.spec_erased()[6].kind == G::spec_kind(),
        t.spec_erased()[7].id == H::spec_component_id() && t.spec_erased()[7].data == t.7.spec_bytes()
            && t.spec_erased()[7].layout == H::spec_layout() && t.spec_erased()[7].kind == H::spec_kind(),
{
}

/// Spawning a bundle of 8 components with distinct ids into a new archetype
/// stores every element: the new entity's component of each element's id
/// holds that element's bytes and reads back as that element.
pub proof fn lemma_spawn_bundle8_reads_back<A: Component, B: Component, C: Component, D: Component, E: Component, F: Component, G: Component, H: Component>(v: WorldView, t: (A, B, C, D, E, F, G, H), e: EntityId, w: WorldView)
    requires
        v.wf(),
        v.can_spawn(),
        v.accepts(t.spec_erased()),
        e.0 == v.next_entity,
        v.spawned(t.spec_erased(), e, w),
        first_match(v.archetypes, erased_ids(t.spec_erased())) is None,
        A::spec_component_id() != B::spec_component_id(),
        A::spec_component_id() != C::spec_component_id(),
        A::spec_component_id() != D::spec_component_id(),
        A::spec_component_id() != E::spec_component_id(),
        A::spec_component_id() != F::spec_component_id(),
        A::spec_component_id() != G::spec_component_id(),
        A::spec_component_id() != H::spec_component_id(),
        B::spec_component_id() != C::spec_component_id(),
        B::spec_component_id() != D::spec_component_id(),
        B::spec_component_id() != E::spec_component_id(),
        B::spec_component_id() != F::spec_component_id(),
        B::spec_component_id() != G::spec_component_id(),
        B::spec_component_id() != H::spec_component_id(),
        C::spec_component_id() != D::spec_component_id(),
        C::spec_component_id() != E::spec_component_id(),
        C::spec_component_id() != F::spec_component_id(),
        C::spec_component_id() != G::spec_component_id(),
        C::spec_component_id() != H::spec_component_id(),
        D::spec_component_id() != E::spec_component_id(),
        D::spec_component_id() != F::spec_component_id(),
        D::spec_component_id() != G::spec_component_id(),
        D::spec_component_id() != H::spec_component_id(),
        E::spec_component_id() != F::spec_component_id(),
        E::spec_component_id() != G::spec_component_id(),
        E::spec_component_id() != H::spec_component_id(),
        F::spec_component_id() != G::spec_component_id(),
        F::spec_component_id() != H::spec_component_id(),
        G::spec_component_id() != H::spec_component_id(),
    ensures
        w.component(e, A::spec_component_id()) == Some(t.0.spec_bytes())
            && A::spec_from_bytes(w.component(e, A::spec_component_id()).unwrap()) == t.0,
        w.component(e, B::spec_component_id()) == Some(t.1.spec_bytes())
            && B::spec_from_bytes(w.component(e, B::spec_component_id()).unwrap()) == t.1,
        w.component(e, C::spec_component_id()) == Some(t.2.spec_bytes())
            && C::spec_from_bytes(w.component(e, C::spec_component_id()).unwrap()) == t.2,
        w.component(e, D::spec_component_id()) == Some(t.3.spec_bytes())
            && D::spec_from_bytes(w.component(e, D::spec_component_id()).unwrap()) == t.3,
        w.component(e, E::spec_component_id()) == Some(t.4.spec_bytes())
            && E::spec_from_bytes(w.component(e, E::spec_component_id()).unwrap()) == t.4,
        w.component(e, F::spec_component_id()) == Some(t.5.spec_bytes())
            && F::spec_from_bytes(w.component(e, F::spec_component_id()).unwrap()) == t.5,
        w.component(e, G::spec_component_id()) == Some(t.6.spec_bytes())
            && G::spec_from_bytes(w.component(e, G::spec_component_id()).unwrap()) == t.6,
        w.component(e, H::spec_component_id()) == Some(t.7.spec_bytes())
            && H::spec_from_bytes(w.component(e, H::spec_component_id()).unwrap()) == t.7,
{
    let comps = t.spec_erased();
    lemma_bundle8_erased(t);
    assert(w.component(e, A::spec_component_id()) == Some(t.0.spec_bytes()) && A::spec_from_bytes(w.component(e, A::spec_component_id()).unwrap()) == t.0) by {
        assert(comps[1].id != comps[0].id && comps[2].id != comps[0].id && comps[3].id != comps[0].id && comps[4].id != comps[0].id && comps[5].id != comps[0].id && comps[6].id != comps[0].id && comps[7].id != comps[0].id);
        lemma_spawned_element(v, comps, e, w, 0, &t.0);
    }
    assert(w.component(e, B::spec_component_id()) == Some(t.1.spec_bytes()) && B::spec_from_bytes(w.component(e, B::spec_component_id()).unwrap()) == t.1) by {
        assert(comps[2].id != comps[1].id && comps[3].id != comps[1].id && comps[4].id != comps[1].id && comps[5].id != comps[1].id && comps[6].id != comps[1].id && comps[7].id != comps[1].id);
        lemma_spawned_element(v, comps, e, w, 1, &t.1);
    }
    assert(w.component(e, C::spec_component_id()) == Some(t.2.spec_bytes()) && C::spec_from_bytes(w.component(e, C::spec_component_id()).unwrap()) == t.2) by {
        assert(comps[3].id != comps[2].id && comps[4].id != comps[2].id && comps[5].id != comps[2].id && comps[6].id != comps[2].id && comps[7].id != comps[2].id);
        lemma_spawned_element(v, comps, e, w, 2, &t.2);
    }
    assert(w.component(e, D::spec_component_id()) == Some(t.3.spec_bytes()) && D::spec_from_bytes(w.component(e, D::spec_component_id()).unwrap()) == t.3) by {
        assert(comps[4].id != comps[3].id && comps[5].id != comps[3].id && comps[6].id != comps[3].id && comps[7].id != comps[3].id);
        lemma_spawned_element(v, comps, e, w, 3, &t.3);
    }
    assert(w.component(e, E::spec_component_id()) == Some(t.4.spec_bytes()) && E::spec_from_bytes(w.component(e, E::spec_component_id()).unwrap()) == t.4) by {
        assert(comps[5].id != comps[4].id && comps[6].id != comps[4].id && comps[7].id != comps[4].id);
        lemma_spawned_element(v, comps, e, w, 4, &t.4);
    }
    assert(w.component(e, F::spec_component_id()) == Some(t.5.spec_bytes()) && F::spec_from_bytes(w.component(e, F::spec_component_id()).unwrap()) == t.5) by {
        assert(comps[6].id != comps[5].id && comps[7].id != comps[5].id);
        lemma_spawned_element(v, comps, e, w, 5, &t.5);
    }
    assert(w.component(e, G::spec_component_id()) == Some(t.6.spec_bytes()) && G::spec_from_bytes(w.component(e, G::spec_component_id()).unwrap()) == t.6) by {
        assert(comps[7].id != comps[6].id);
        lemma_spawned_element(v, comps, e, w, 6, &t.6);
    }
    assert(w.component(e, H::spec_component_id()) == Some(t.7.spec_bytes()) && H::spec_from_bytes(w.component(e, H::spec_component_id()).unwrap()) == t.7) by {
        lemma_spawned_element(v, comps, e, w, 7, &t.7);
    }
}

/// A query of 1 component asks for each element's id, in order, and decodes
/// each element of its result from the bytes of its own component.
pub proof fn lemma_query1_elements<A: Component>(cells: Seq<Seq<u8>>)
    ensures
        <(A,) as Query>::spec_ids().len() == 1,
        <(A,) as Query>::spec_ids()[0] == A::spec_component_id(),
        <(A,) as Query>::spec_decode(cells).0 == A::spec_from_bytes(cells[0]),
{
}

/// Every result of a query of 1 component is made, element by element, from
/// the current value of that element's component of the row's entity.
pub proof fn lemma_query1_reads_components<A: Component>(v: WorldView)
    requires
        v.wf(),
    ensures
        query_results::<(A,)>(v.archetypes).len() == query_rows(v.archetypes, <(A,) as Query>::spec_ids()).len(),
        forall|k: int| 0 <= k < query_results::<(A,)>(v.archetypes).len() ==> {
            let e = #[trigger] query_rows(v.archetypes, <(A,) as Query>::spec_ids())[k].0;
            &&& v.component(e, A::spec_component_id()) is Some
            &&& query_results::<(A,)>(v.archetypes)[k].0 == A::spec_from_bytes(v.component(e, A::spec_component_id()).unwrap())
        },
{
    let ids = <(A,) as Query>::spec_ids();
    lemma_query_reads_components(v, ids);
    assert forall|k: int| 0 <= k < query_results::<(A,)>(v.archetypes).len() implies {
        let e = #[trigger] query_rows(v.archetypes, ids)[k].0;
        &&& v.component(e, A::spec_component_id()) is Some
            &&& query_results::<(A,)>(v.archetypes)[k].0 == A::spec_from_bytes(v.component(e, A::spec_component_id()).unwrap())
    } by {
        let row = query_rows(v.archetypes, ids)[k];
        lemma_query1_elements::<A>(row.1);
        assert(v.component(row.0, ids[0]) == Some(row.1[0]));
    }
}

/// A query of 2 components asks for each element's id, in order, and decodes
/// each element of its result from the bytes of its own component.
pub proof fn lemma_query2_elements<A: Component, B: Component>(cells: Seq<Seq<u8>>)
    ensures
        <(A, B) as Query>::spec_ids().len() == 2,
        <(A, B) as Query>::spec_ids()[0] == A::spec_component_id(),
        <(A, B) as Query>::spec_decode(cells).0 == A::spec_from_bytes(cells[0]),
        <(A, B) as Query>::spec_ids()[1] == B::spec_component_id(),
        <(A, B) as Query>::spec_decode(cells).1 == B::spec_from_bytes(cells[1]),
{
}

/// Every result of a query of 2 components is made, element by element, from
/// the current value of that element's component of the row's entity.
pub proof fn lemma_query2_reads_components<A: Component, B: Component>(v: WorldView)
    requires
        v.wf(),
    ensures
        query_results::<(A, B)>(v.archetypes).len() == query_rows(v.archetypes, <(A, B) as Query>::spec_ids()).len(),
        forall|k: int| 0 <= k < query_results::<(A, B)>(v.archetypes).len() ==> {
            let e = #[trigger] query_rows(v.archetypes, <(A, B) as Query>::spec_ids())[k].0;
            &&& v.component(e, A::spec_component_id()) is Some
            &&& query_results::<(A, B)>(v.archetypes)[k].0 == A::spec_from_bytes(v.component(e, A::spec_component_id()).unwrap())
            &&& query_results::<(A, B)>(v.archetypes)[k].1 == B::spec_from_bytes(v.component(e, B::spec_component_id()).unwrap())
        },
{
    let ids = <(A, B) as Query>::spec_ids();
    lemma_query_reads_components(v, ids);
    assert forall|k: int| 0 <= k < query_results::<(A, B)>(v.archetypes).len() implies {
        let e = #[trigger] query_rows(v.archetypes, ids)[k].0;
        &&& v.component(e, A::spec_component_id()) is Some
            &&& query_results::<(A, B)>(v.archetypes)[k].0 == A::spec_from_bytes(v.component(e, A::spec_component_id()).unwrap())
            &&& query_results::<(A, B)>(v.archetypes)[k].1 == B::spec_from_bytes(v.component(e, B::spec_component_id()).unwrap())
    } by {
        let row = query_rows(v.archetypes, ids)[k];
        lemma_query2_elements::<A, B>(row.1);
        assert(v.component(row.0, ids[0]) == Some(row.1[0]));
        assert(v.component(row.0, ids[1]) == Some(row.1[1]));
    }
}

/// A query of 3 components asks for each element's id, in order, and decodes
/// each element of its result from the bytes of its own component.
pub proof fn lemma_query3_elements<A: Component, B: Component, C: Component>(cells: Seq<Seq<u8>>)
    ensures
        <(A, B, C) as Query>::spec_ids().len() == 3,
        <(A, B, C) as Query>::spec_ids()[0] == A::spec_component_id(),
        <(A, B, C) as Query>::spec_decode(cells).0 == A::spec_from_bytes(cells[0]),
        <(A, B, C) as Query>::spec_ids()[1] == B::spec_component_id(),
        <(A, B, C) as Query>::spec_decode(cells).1 == B::spec_from_bytes(cells[1]),
        <(A, B, C) as Query>::spec_ids()[2] == C::spec_component_id(),
        <(A, B, C) as Query>::spec_decode(cells).2 == C::spec_from_bytes(cells[2]),
{
}

/// Every result of a query of 3 components is made, element by element, from
/// the current value of that element's component of the row's entity.
pub proof fn lemma_query3_reads_components<A: Component, B: Component, C: Component>(v: WorldView)
    requires
        v.wf(),
    ensures
        query_results::<(A, B, C)>(v.archetypes).len() == query_rows(v.archetypes, <(A, B, C) as Query>::spec_ids()).len(),
        forall|k: int| 0 <= k < query_results::<(A, B, C)>(v.archetypes).len() ==> {
            let e = #[trigger] query_rows(v.archetypes, <(A, B, C) as Query>::spec_ids())[k].0;
            &&& v.component(e, A::spec_component_id()) is Some
            &&& query_results::<(A, B, C)>(v.archetypes)[k].0 == A::spec_from_bytes(v.component(e, A::spec_component_id()).unwrap())
            &&& query_results::<(A, B, C)>(v.archetypes)[k].1 == B::spec_from_bytes(v.component(e, B::spec_component_id()).unwrap())
            &&& query_results::<(A, B, C)>(v.archetypes)[k].2 == C::spec_from_bytes(v.component(e, C::spec_component_id()).unwrap())
        },
{
    let ids = <(A, B, C) as Query>::spec_ids();
    lemma_query_reads_components(v, ids);
    assert forall|k: int| 0 <= k < query_results::<(A, B, C)>(v.archetypes).len() implies {
        let e = #[trigger] query_rows(v.archetypes, ids)[k].0;
        &&& v.component(e, A::spec_component_id()) is Some
            &&& query_results::<(A, B, C)>(v.archetypes)[k].0 == A::spec_from_bytes(v.component(e, A::spec_component_id()).unwrap())
            &&& query_results::<(A, B, C)>(v.archetypes)[k].1 == B::spec_from_bytes(v.component(e, B::spec_component_id()).unwrap())
            &&& query_results::<(A, B, C)>(v.archetypes)[k].2 == C::spec_from_bytes(v.component(e, C::spec_component_id()).unwrap())
    } by {
        let row = query_rows(v.archetypes, ids)[k];
        lemma_query3_elements::<A, B, C>(row.1);
        assert(v.component(row.0, ids[0]) == Some(row.1[0]));
        assert(v.component(row.0, ids[1]) == Some(row.1[1]));
        assert(v.component(row.0, ids[2]) == Some(row.1[2]));
    }
}

/// A query of 4 components asks for each element's id, in order, and decodes
/// each element of its result from the bytes of its own component.
pub proof fn lemma_query4_elements<A: Component, B: Component, C: Component, D: Component>(cells: Seq<Seq<u8>>)
    ensures
        <(A, B, C, D) as Query>::spec_ids().len() == 4,
        <(A, B, C, D) as Query>::spec_ids()[0] == A::spec_component_id(),
        <(A, B, C, D) as Query>::spec_decode(cells).0 == A::spec_from_bytes(cells[0]),
        <(A, B, C, D) as Query>::spec_ids()[1] == B::spec_component_id(),
        <(A, B, C, D) as Query>::spec_decode(cells).1 == B::spec_from_bytes(cells[1]),
        <(A, B, C, D) as Query>::spec_ids()[2] == C::spec_component_id(),
        <(A, B, C, D) as Query>::spec_decode(cells).2 == C::spec_from_bytes(cells[2]),
        <(A, B, C, D) as Query>::spec_ids()[3] == D::spec_component_id(),
        <(A, B, C, D) as Query>::spec_decode(cells).3 == D::spec_from_bytes(cells[3]),
{
}

/// Every result of a query of 4 components is made, element by element, from
/// the current value of that element's component of the row's entity.
pub proof fn lemma_query4_reads_components<A: Component, B: Component, C: Component, D: Component>(v: WorldView)
    requires
        v.wf(),
    ensures
        query_results::<(A, B, C, D)>(v.archetypes).len() == query_rows(v.archetypes, <(A, B, C, D) as Query>::spec_ids()).len(),
        forall|k: int| 0 <= k < query_results::<(A, B, C, D)>(v.archetypes).len() ==> {
            let e = #[trigger] query_rows(v.archetypes, <(A, B, C, D) as Query>::spec_ids())[k].0;
            &&& v.component(e, A::spec_component_id()) is Some
            &&& query_results::<(A, B, C, D)>(v.archetypes)[k].0 == A::spec_from_bytes(v.component(e, A::spec_component_id()).unwrap())
            &&& query_results::<(A, B, C, D)>(v.archetypes)[k].1 == B::spec_from_bytes(v.component(e, B::spec_component_id()).unwrap())
            &&& query_results::<(A, B, C, D)>(v.archetypes)[k].2 == C::spec_from_bytes(v.component(e, C::spec_component_id()).unwrap())
            &&& query_results::<(A, B, C, D)>(v.archetypes)[k].3 == D::spec_from_bytes(v.component(e, D::spec_component_id()).unwrap())
        },
{
    let ids = <(A, B, C, D) as Query>::spec_ids();
    lemma_query_reads_components(v, ids);
    assert forall|k: int| 0 <= k < query_results::<(A, B, C, D)>(v.archetypes).len() implies {
        let e = #[trigger] query_rows(v.archetypes, ids)[k].0;
        &&& v.component(e, A::spec_component_id()) is Some
            &&& query_results::<(A, B, C, D)>(v.archetypes)[k].0 == A::spec_from_bytes(v.component(e, A::spec_component_id()).unwrap())
            &&& query_results::<(A, B, C, D)>(v.archetypes)[k].1 == B::spec_from_bytes(v.component(e, B::spec_component_id()).unwrap())
            &&& query_results::<(A, B, C, D)>(v.archetypes)[k].2 == C::spec_from_bytes(v.component(e, C::spec_component_id()).unwrap())
            &&& query_results::<(A, B, C, D)>(v.archetypes)[k].3 == D::spec_from_bytes(v.component(e, D::spec_component_id()).unwrap())
    } by {
        let row = query_rows(v.archetypes, ids)[k];
        lemma_query4_elements::<A, B, C, D>(row.1);
        assert(v.component(row.0, ids[0]) == Some(row.1[0]));
        assert(v.component(row.0, ids[1]) == Some(row.1[1]));
        assert(v.component(row.0, ids[2]) == Some(row.1[2]));
        assert(v.component(row.0, ids[3]) == Some(row.1[3]));
    }
}

/// A query of 5 components asks for each element's id, in order, and decodes
/// each element of its result from the bytes of its own component.
pub proof fn lemma_query5_elements<A: Component, B: Component, C: Component, D: Component, E: Component>(cells: Seq<Seq<u8>>)
    ensures
        <(A, B, C, D, E) as Query>::spec_ids().len() == 5,
        <(A, B, C, D, E) as Query>::spec_ids()[0] == A::spec_component_id(),
        <(A, B, C, D, E) as Query>::spec_decode(cells).0 == A::spec_from_bytes(cells[0]),
        <(A, B, C, D, E) as Query>::spec_ids()[1] == B::spec_component_id(),
        <(A, B, C, D, E) as Query>::spec_decode(cells).1 == B::spec_from_bytes(cells[1]),
        <(A, B, C, D, E) as Query>::spec_ids()[2] == C::spec_component_id(),
        <(A, B, C, D, E) as Query>::spec_decode(cells).2 == C::spec_from_bytes(cells[2]),
        <(A, B, C, D, E) as Query>::spec_ids()[3] == D::spec_component_id(),
        <(A, B, C, D, E) as Query>::spec_decode(cells).3 == D::spec_from_bytes(cells[3]),
        <(A, B, C, D, E) as Query>::spec_ids()[4] == E::spec_component_id(),
        <(A, B, C, D, E) as Query>::spec_decode(cells).4 == E::spec_from_bytes(cells[4]),
{
}

/// Every result of a query of 5 components is made, element by element, from
/// the current value of that element's component of the row's entity.
pub proof fn lemma_query5_reads_components<A: Component, B: Component, C: Component, D: Component, E: Component>(v: WorldView)
    requires
        v.wf(),
    ensures
        query_results::<(A, B, C, D, E)>(v.archetypes).len() == query_rows(v.archetypes, <(A, B, C, D, E) as Query>::spec_ids()).len(),
        forall|k: int| 0 <= k < query_results::<(A, B, C, D, E)>(v.archetypes).len() ==> {
            let e = #[trigger] query_rows(v.archetypes, <(A, B, C, D, E) as Query>::spec_ids())[k].0;
            &&& v.component(e, A::spec_component_id()) is Some
            &&& query_results::<(A, B, C, D, E)>(v.archetypes)[k].0 == A::spec_from_bytes(v.component(e, A::spec_component_id()).unwrap())
            &&& query_results::<(A, B, C, D, E)>(v.archetypes)[k].1 == B::spec_from_bytes(v.component(e, B::spec_component_id()).unwrap())
            &&& query_results::<(A, B, C, D, E)>(v.archetypes)[k].2 == C::spec_from_bytes(v.component(e, C::spec_component_id()).unwrap())
            &&& query_results::<(A, B, C, D, E)>(v.archetypes)[k].3 == D::spec_from_bytes(v.component(e, D::spec_component_id()).unwrap())
            &&& query_results::<(A, B, C, D, E)>(v.archetypes)[k].4 == E::spec_from_bytes(v.component(e, E::spec_component_id()).unwrap())
        },
{
    let ids = <(A, B, C, D, E) as Query>::spec_ids();
    lemma_query_reads_components(v, ids);
    assert forall|k: int| 0 <= k < query_results::<(A, B, C, D, E)>(v.archetypes).len() implies {
        let e = #[trigger] query_rows(v.archetypes, ids)[k].0;
        &&& v.component(e, A::spec_component_id()) is Some
            &&& query_results::<(A, B, C, D, E)>(v.archetypes)[k].0 == A::spec_from_bytes(v.component(e, A::spec_component_id()).unwrap())
            &&& query_results::<(A, B, C, D, E)>(v.archetypes)[k].1 == B::spec_from_bytes(v.component(e, B::spec_component_id()).unwrap())
            &&& query_results::<(A, B, C, D, E)>(v.archetypes)[k].2 == C::spec_from_bytes(v.component(e, C::spec_component_id()).unwrap())
            &&& query_results::<(A, B, C, D, E)>(v.archetypes)[k].3 == D::spec_from_bytes(v.component(e, D::spec_component_id()).unwrap())
            &&& query_results::<(A, B, C, D, E)>(v.archetypes)[k].4 == E::spec_from_bytes(v.component(e, E::spec_component_id()).unwrap())
    } by {
        let row = query_rows(v.archetypes, ids)[k];
        lemma_query5_elements::<A, B, C, D, E>(row.1);
        assert(v.component(row.0, ids[0]) == Some(row.1[0]));
        assert(v.component(row.0, ids[1]) == Some(row.1[1]));
        assert(v.component(row.0, ids[2]) == Some(row.1[2]));
        assert(v.component(row.0, ids[3]) == Some(row.1[3]));
        assert(v.component(row.0, ids[4]) == Some(row.1[4]));
    }
}

/// A query of 6 components asks for each element's id, in order, and decodes
/// each element of its result from the bytes of its own component.
pub proof fn lemma_query6_elements<A: Component, B: Component, C: Component, D: Component, E: Component, F: Component>(cells: Seq<Seq<u8>>)
    ensures
        <(A, B, C, D, E, F) as Query>::spec_ids().len() == 6,
        <(A, B, C, D, E, F) as Query>::spec_ids()[0] == A::spec_component_id(),
        <(A, B, C, D, E, F) as Query>::spec_decode(cells).0 == A::spec_from_bytes(cells[0]),
        <(A, B, C, D, E, F) as Query>::spec_ids()[1] == B::spec_component_id(),
        <(A, B, C, D, E, F) as Query>::spec_decode(cells).1 == B::spec_from_bytes(cells[1]),
        <(A, B, C, D, E, F) as Query>::spec_ids()[2] == C::spec_component_id(),
        <(A, B, C, D, E, F) as Query>::spec_decode(cells).2 == C::spec_from_bytes(cells[2]),
        <(A, B, C, D, E, F) as Query>::spec_ids()[3] == D::spec_component_id(),
        <(A, B, C, D, E, F) as Query>::spec_decode(cells).3 == D::spec_from_bytes(cells[3]),
        <(A, B, C, D, E, F) as Query>::spec_ids()[4] == E::spec_component_id(),
        <(A, B, C, D, E, F) as Query>::spec_decode(cells).4 == E::spec_from_bytes(cells[4]),
        <(A, B, C, D, E, F) as Query>::spec_ids()[5] == F::spec_component_id(),
        <(A, B, C, D, E, F) as Query>::spec_decode(cells).5 == F::spec_from_bytes(cells[5]),
{
}

/// Every result of a query of 6 components is made, element by element, from
/// the current value of that element's component of the row's entity.
pub proof fn lemma_query6_reads_components<A: Component, B: Component, C: Component, D: Component, E: Component, F: Component>(v: WorldView)
    requires
        v.wf(),
    ensures
        query_results::<(A, B, C, D, E, F)>(v.archetypes).len() == query_rows(v.archetypes, <(A, B, C, D, E, F) as Query>::spec_ids()).len(),
        forall|k: int| 0 <= k < query_results::<(A, B, C, D, E, F)>(v.archetypes).len() ==> {
            let e = #[trigger] query_rows(v.archetypes, <(A, B, C, D, E, F) as Query>::spec_ids())[k].0;
            &&& v.component(e, A::spec_component_id()) is Some
            &&& query_results::<(A, B, C, D, E, F)>(v.archetypes)[k].0 == A::spec_from_bytes(v.component(e, A::spec_component_id()).unwrap())
            &&& query_results::<(A, B, C, D, E, F)>(v.archetypes)[k].1 == B::spec_from_bytes(v.component(e, B::spec_component_id()).unwrap())
            &&& query_results::<(A, B, C, D, E, F)>(v.archetypes)[k].2 == C::spec_from_bytes(v.component(e, C::spec_component_id()).unwrap())
            &&& query_results::<(A, B, C, D, E, F)>(v.archetypes)[k].3 == D::spec_from_bytes(v.component(e, D::spec_component_id()).unwrap())
            &&& query_results::<(A, B, C, D, E, F)>(v.archetypes)[k].4 == E::spec_from_bytes(v.component(e, E::spec_component_id()).unwrap())
            &&& query_results::<(A, B, C, D, E, F)>(v.archetypes)[k].5 == F::spec_from_bytes(v.component(e, F::spec_component_id()).unwrap())
        },
{
    let ids = <(A, B, C, D, E, F) as Query>::spec_ids();
    lemma_query_reads_components(v, ids);
    assert forall|k: int| 0 <= k < query_results::<(A, B, C, D, E, F)>(v.archetypes).len() implies {
        let e = #[trigger] query_rows(v.archetypes, ids)[k].0;
        &&& v.component(e, A::spec_component_id()) is Some
            &&& query_results::<(A, B, C, D, E, F)>(v.archetypes)[k].0 == A::spec_from_bytes(v.component(e, A::spec_component_id()).unwrap())
            &&& query_results::<(A, B, C, D, E, F)>(v.archetypes)[k].1 == B::spec_from_bytes(v.component(e, B::spec_component_id()).unwrap())
            &&& query_results::<(A, B, C, D, E, F)>(v.archetypes)[k].2 == C::spec_from_bytes(v.component(e, C::spec_component_id()).unwrap())
            &&& query_results::<(A, B, C, D, E, F)>(v.archetypes)[k].3 == D::spec_from_bytes(v.component(e, D::spec_component_id()).unwrap())
            &&& query_results::<(A, B, C, D, E, F)>(v.archetypes)[k].4 == E::spec_from_bytes(v.component(e, E::spec_component_id()).unwrap())
            &&& query_results::<(A, B, C, D, E, F)>(v.archetypes)[k].5 == F::spec_from_bytes(v.component(e, F::spec_component_id()).unwrap())
    } by {
        let row = query_rows(v.archetypes, ids)[k];
        lemma_query6_elements::<A, B, C, D, E, F>(row.1);
        assert(v.component(row.0, ids[0]) == Some(row.1[0]));
        assert(v.component(row.0, ids[1]) == Some(row.1[1]));
        assert(v.component(row.0, ids[2]) == Some(row.1[2]));
        assert(v.component(row.0, ids[3]) == Some(row.1[3]));
        assert(v.component(row.0, ids[4]) == Some(row.1[4]));
        assert(v.component(row.0, ids[5]) == Some(row.1[5]));
    }
}

} // verus!
