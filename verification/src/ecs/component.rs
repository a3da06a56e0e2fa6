use std::any::TypeId;

use vstd::prelude::*;

verus! {

/// Identifier of a component type inside a [`crate::ecs::world::World`].
#[derive(Debug, Clone, Copy, PartialEq, Eq, Structural, PartialOrd, Ord, Hash)]
pub struct ComponentId(pub u32);

/// How the bytes of a component are treated by storage.
#[derive(Debug, Clone, Copy, PartialEq, Eq, Structural)]
pub enum ComponentKind {
    /// Plain old data: the bytes are the value.
    Pod,
    /// A value owned elsewhere; writes into storage carry a pointer-sized handle.
    Extern,
}

/// Size and alignment of a component value, in bytes.
#[derive(Debug, Clone, Copy, PartialEq, Eq, Structural)]
pub struct ComponentLayout {
    pub size: usize,
    pub align: usize,
}

impl ComponentLayout {
    /// The conditions under which a memory layout of this size and
    /// alignment exists: a power-of-two alignment and a size that, rounded
    /// up to the alignment, still fits in an `isize`.
    pub open spec fn valid(self) -> bool {
        vstd::layout::valid_layout(self.size, self.align)
    }

    /// Room for `count` values of this layout can be described by one layout.
    pub open spec fn fits(self, count: int) -> bool {
        &&& vstd::arithmetic::power2::is_pow2(self.align as int)
        &&& self.size * count <= isize::MAX
        &&& self.size * count <= isize::MAX as int - (isize::MAX as int % self.align as int)
    }
}

/// Everything storage needs to know about the component type of a column.
#[derive(Debug, Clone, Copy, PartialEq, Eq, Structural)]
pub struct ComponentMeta {
    pub id: ComponentId,
    pub kind: ComponentKind,
    pub layout: ComponentLayout,
}

/// A component whose type has been erased: its id, layout, kind and bytes.
#[derive(Debug, Clone)]
pub struct ErasedComponent {
    pub id: ComponentId,
    pub data: Vec<u8>,
    pub layout: ComponentLayout,
    pub kind: ComponentKind,
}

/// Abstract value of an [`ErasedComponent`].
pub struct ErasedView {
    pub id: ComponentId,
    pub data: Seq<u8>,
    pub layout: ComponentLayout,
    pub kind: ComponentKind,
}

impl View for ErasedComponent {
    type V = ErasedView;

    open spec fn view(&self) -> ErasedView {
        ErasedView { id: self.id, data: self.data@, layout: self.layout, kind: self.kind }
    }
}

impl ErasedView {
    /// The meta data that a column created for this component carries.
    pub open spec fn meta(self) -> ComponentMeta {
        ComponentMeta { id: self.id, kind: self.kind, layout: self.layout }
    }
}

/// A type that can be stored in a [`crate::ecs::world::World`]: it has a
/// component id, a layout and a kind, and converts to and from the bytes
/// that storage keeps.
pub trait Component: Sized {
    /// The id of this component type.
    spec fn spec_component_id() -> ComponentId;

    /// The layout of a value of this type.
    spec fn spec_layout() -> ComponentLayout;

    /// How storage treats values of this type.
    spec fn spec_kind() -> ComponentKind;

    /// The bytes that represent `self` in storage.
    spec fn spec_bytes(&self) -> Seq<u8>;

    /// The value that `bytes` represent.
    spec fn spec_from_bytes(bytes: Seq<u8>) -> Self;

    /// The bytes of a value are exactly as many as its layout's size, and
    /// they represent that value again.
    proof fn lemma_bytes_round_trip(&self)
        ensures
            self.spec_bytes().len() == Self::spec_layout().size,
            Self::spec_from_bytes(self.spec_bytes()) == *self,
    ;

    fn component_id() -> (id: ComponentId)
        ensures
            id == Self::spec_component_id(),
    ;

    fn id(&self) -> (id: ComponentId)
        ensures
            id == Self::spec_component_id(),
    ;

    fn layout(&self) -> (layout: ComponentLayout)
        ensures
            layout == Self::spec_layout(),
    ;

    fn kind(&self) -> (kind: ComponentKind)
        ensures
            kind == Self::spec_kind(),
    ;

    fn to_bytes(&self) -> (bytes: Vec<u8>)
        ensures
            bytes@ == self.spec_bytes(),
    ;

    fn from_bytes(bytes: &[u8]) -> (value: Self)
        ensures
            value == Self::spec_from_bytes(bytes@),
    ;
}

/// The type-erased form of a component value.
pub open spec fn erased_view<C: Component>(c: &C) -> ErasedView {
    ErasedView { id: C::spec_component_id(), data: c.spec_bytes(), layout: C::spec_layout(), kind: C::spec_kind() }
}

/// Erases the type of a component value.
pub fn erase<C: Component>(c: &C) -> (r: ErasedComponent)
    ensures
        r@ == erased_view(c),
{
    ErasedComponent { id: c.id(), data: c.to_bytes(), layout: c.layout(), kind: c.kind() }
}

/// A group of component values that are spawned together as one entity.
pub trait ComponentsBundle {
    /// The type-erased components, in order.
    spec fn spec_erased(&self) -> Seq<ErasedView>;

    fn erased(&self) -> (comps: Vec<ErasedComponent>)
        ensures
            comps@.map_values(|c: ErasedComponent| c@) == self.spec_erased(),
    ;
}

impl<A: Component> ComponentsBundle for (A,) {
    open spec fn spec_erased(&self) -> Seq<ErasedView> {
        seq![erased_view(&self.0)]
    }

    fn erased(&self) -> (comps: Vec<ErasedComponent>) {
        let mut comps = Vec::new();
        comps.push(erase(&self.0));
        proof {
            assert(comps@.map_values(|c: ErasedComponent| c@) =~= self.spec_erased());
        }
        comps
    }
}

impl<A: Component, B: Component> ComponentsBundle for (A, B) {
    open spec fn spec_erased(&self) -> Seq<ErasedView> {
        seq![erased_view(&self.0), erased_view(&self.1)]
    }

    fn erased(&self) -> (comps: Vec<ErasedComponent>) {
        let mut comps = Vec::new();
        comps.push(erase(&self.0));
        comps.push(erase(&self.1));
        proof {
            assert(comps@.map_values(|c: ErasedComponent| c@) =~= self.spec_erased());
        }
        comps
    }
}

impl<A: Component, B: Component, C: Component> ComponentsBundle for (A, B, C) {
    open spec fn spec_erased(&self) -> Seq<ErasedView> {
        seq![erased_view(&self.0), erased_view(&self.1), erased_view(&self.2)]
    }

    fn erased(&self) -> (comps: Vec<ErasedComponent>) {
        let mut comps = Vec::new();
        comps.push(erase(&self.0));
        comps.push(erase(&self.1));
        comps.push(erase(&self.2));
        proof {
            assert(comps@.map_values(|c: ErasedComponent| c@) =~= self.spec_erased());
        }
        comps
    }
}

impl<A: Component, B: Component, C: Component, D: Component> ComponentsBundle for (A, B, C, D) {
    open spec fn spec_erased(&self) -> Seq<ErasedView> {
        seq![erased_view(&self.0), erased_view(&self.1), erased_view(&self.2), erased_view(&self.3)]
    }

    fn erased(&self) -> (comps: Vec<ErasedComponent>) {
        let mut comps = Vec::new();
        comps.push(erase(&self.0));
        comps.push(erase(&self.1));
        comps.push(erase(&self.2));
        comps.push(erase(&self.3));
        proof {
            assert(comps@.map_values(|c: ErasedComponent| c@) =~= self.spec_erased());
        }
        comps
    }
}

impl<A: Component, B: Component, C: Component, D: Component, E: Component> ComponentsBundle for (A, B, C, D, E) {
    open spec fn spec_erased(&self) -> Seq<ErasedView> {
        seq![erased_view(&self.0), erased_view(&self.1), erased_view(&self.2), erased_view(&self.3), erased_view(&self.4)]
    }

    fn erased(&self) -> (comps: Vec<ErasedComponent>) {
        let mut comps = Vec::new();
        comps.push(erase(&self.0));
        comps.push(erase(&self.1));
        comps.push(erase(&self.2));
        comps.push(erase(&self.3));
        comps.push(erase(&self.4));
        proof {
            assert(comps@.map_values(|c: ErasedComponent| c@) =~= self.spec_erased());
        }
        comps
    }
}

impl<A: Component, B: Component, C: Component, D: Component, E: Component, F: Component> ComponentsBundle for (A, B, C, D, E, F) {
    open spec fn spec_erased(&self) -> Seq<ErasedView> {
        seq![erased_view(&self.0), erased_view(&self.1), erased_view(&self.2), erased_view(&self.3), erased_view(&self.4), erased_view(&self.5)]
    }

    fn erased(&self) -> (comps: Vec<ErasedComponent>) {
        let mut comps = Vec::new();
        comps.push(erase(&self.0));
        comps.push(erase(&self.1));
        comps.push(erase(&self.2));
        comps.push(erase(&self.3));
        comps.push(erase(&self.4));
        comps.push(erase(&self.5));
        proof {
            assert(comps@.map_values(|c: ErasedComponent| c@) =~= self.spec_erased());
        }
        comps
    }
}

impl<A: Component, B: Component, C: Component, D: Component, E: Component, F: Component, G: Component> ComponentsBundle for (A, B, C, D, E, F, G) {
    open spec fn spec_erased(&self) -> Seq<ErasedView> {
        seq![erased_view(&self.0), erased_view(&self.1), erased_view(&self.2), erased_view(&self.3), erased_view(&self.4), erased_view(&self.5), erased_view(&self.6)]
    }

    fn erased(&self) -> (comps: Vec<ErasedComponent>) {
        let mut comps = Vec::new();
        comps.push(erase(&self.0));
        comps.push(erase(&self.1));
        comps.push(erase(&self.2));
        comps.push(erase(&self.3));
        comps.push(erase(&self.4));
        comps.push(erase(&self.5));
        comps.push(erase(&self.6));
        proof {
            assert(comps@.map_values(|c: ErasedComponent| c@) =~= self.spec_erased());
        }
        comps
    }
}

impl<A: Component, B: Component, C: Component, D: Component, E: Component, F: Component, G: Component, H: Component> ComponentsBundle for (A, B, C, D, E, F, G, H) {
    open spec fn spec_erased(&self) -> Seq<ErasedView> {
        seq![erased_view(&self.0), erased_view(&self.1), erased_view(&self.2), erased_view(&self.3), erased_view(&self.4), erased_view(&self.5), erased_view(&self.6), erased_view(&self.7)]
    }

    fn erased(&self) -> (comps: Vec<ErasedComponent>) {
        let mut comps = Vec::new();
        comps.push(erase(&self.0));
        comps.push(erase(&self.1));
        comps.push(erase(&self.2));
        comps.push(erase(&self.3));
        comps.push(erase(&self.4));
        comps.push(erase(&self.5));
        comps.push(erase(&self.6));
        comps.push(erase(&self.7));
        proof {
            assert(comps@.map_values(|c: ErasedComponent| c@) =~= self.spec_erased());
        }
        comps
    }
}

#[verifier::external_type_specification]
#[verifier::external_body]
pub struct ExTypeId(TypeId);

/// `TypeId::of::<T>()`: the identifier of type `T`. Nothing is claimed of the
/// value; equal types give equal identifiers, which is not stated here.
#[verifier::external_body]
fn type_id_of<T: ?Sized + 'static>() -> TypeId {
    TypeId::of::<T>()
}

/// `TypeId`'s `==`: whether two type identifiers are the same value.
#[verifier::external_body]
fn same_type_id(a: &TypeId, b: &TypeId) -> (r: bool)
    ensures
        r == (*a == *b),
{
    a == b
}

/// Hands out component ids: the `k`-th distinct type registered gets id `k`
/// (counting from one, wrapping around at `u32::MAX` like the counter it
/// models).
pub struct ComponentRegistry {
    types: Vec<TypeId>,
}

impl View for ComponentRegistry {
    type V = Seq<TypeId>;

    /// The registered types, in registration order.
    closed spec fn view(&self) -> Seq<TypeId> {
        self.types@
    }
}

/// The id of the type registered at position `i`.
pub open spec fn registered_id(i: int) -> ComponentId {
    ComponentId(((i + 1) % 0x1_0000_0000int) as u32)
}

/// The registered types and the id handed out after asking for the id of
/// `ty` with `types` registered: a known type keeps its id, a new one is
/// appended and gets the next id.
pub open spec fn registered(types: Seq<TypeId>, ty: TypeId) -> (Seq<TypeId>, ComponentId) {
    match types.index_of_first(ty) {
        Some(i) => (types, registered_id(i)),
        None => (types.push(ty), registered_id(types.len() as int)),
    }
}

impl ComponentRegistry {
    /// No type is registered twice.
    pub open spec fn wf(&self) -> bool {
        forall|x: int, y: int| 0 <= x < y < self@.len() ==> self@[x] != self@[y]
    }

    pub fn new() -> (r: ComponentRegistry)
        ensures
            r.wf(),
            r@ == Seq::<TypeId>::empty(),
    {
        ComponentRegistry { types: Vec::new() }
    }

    /// The id of type `ty`, registering it first when it is new.
    pub fn id_of(&mut self, ty: TypeId) -> (id: ComponentId)
        requires
            old(self).wf(),
        ensures
            final(self).wf(),
            (final(self)@, id) == registered(old(self)@, ty),
    {
        let n = self.types.len();
        let mut i: usize = 0;
        while i < n
            invariant
                n == self.types@.len(),
                self@ == old(self)@,
                self.wf(),
                i <= n,
                forall|k: int| 0 <= k < i ==> self.types@[k] != ty,
            decreases n - i,
        {
            if same_type_id(&self.types[i], &ty) {
                proof {
                    self.types@.index_of_first_ensures(ty);
                    assert(self.types@.contains(ty));
                }
                return registry_id(i);
            }
            i = i + 1;
        }
        proof {
            self.types@.index_of_first_ensures(ty);
        }
        self.types.push(ty);
        registry_id(n)
    }
}

/// The id of the type registered at position `i`: `i + 1`, wrapping around
/// at `u32::MAX`.
fn registry_id(i: usize) -> (id: ComponentId)
    ensures
        id == registered_id(i as int),
{
    let low = (i as u64 % 0x1_0000_0000u64) as u32;
    let id = ComponentId(low.wrapping_add(1));
    proof {
        let x = i as u64;
        assert(((x % 0x1_0000_0000u64) as u32 as int + 1) % 0x1_0000_0000int == (x as int + 1) % 0x1_0000_0000int) by (nonlinear_arith);
    }
    id
}

/// Distinct registered types have distinct ids, as long as fewer than
/// 2^32 types are registered.
pub proof fn lemma_registered_ids_distinct(i: int, j: int)
    requires
        0 <= i < j < 0x1_0000_0000int,
    ensures
        registered_id(i) != registered_id(j),
{
    if j + 1 < 0x1_0000_0000int {
        assert((i + 1) % 0x1_0000_0000int == i + 1);
        assert((j + 1) % 0x1_0000_0000int == j + 1);
    } else {
        assert((j + 1) % 0x1_0000_0000int == 0);
        assert((i + 1) % 0x1_0000_0000int == i + 1);
    }
}

/// Asking twice for the id of one type gives the same id, and the second
/// request registers nothing.
pub proof fn lemma_registered_stable(types: Seq<TypeId>, ty: TypeId)
    ensures
        registered(registered(types, ty).0, ty) == registered(types, ty),
{
    types.index_of_first_ensures(ty);
    let t1 = registered(types, ty).0;
    t1.index_of_first_ensures(ty);
    if types.index_of_first(ty) is None {
        assert(t1[types.len() as int] == ty);
        assert forall|j: int| 0 <= j < types.len() implies t1[j] != ty by {
            assert(t1[j] == types[j]);
            if types[j] == ty {
                assert(types.contains(ty));
            }
        }
        match t1.index_of_first(ty) {
            Some(k) => {
                if k < types.len() {
                    assert(t1[k] == types[k]);
                }
            },
            None => {
                assert(t1.contains(ty));
            },
        }
    }
}

/// Two different types asked for one after the other get different ids, as
/// long as fewer than 2^32 types end up registered.
pub proof fn lemma_registered_distinct(types: Seq<TypeId>, a: TypeId, b: TypeId)
    requires
        a != b,
        types.len() + 2 <= 0x1_0000_0000int,
    ensures
        registered(types, a).1 != registered(registered(types, a).0, b).1,
{
    types.index_of_first_ensures(a);
    let t1 = registered(types, a).0;
    t1.index_of_first_ensures(b);
    types.index_of_first_ensures(b);
    let ia = match types.index_of_first(a) {
        Some(i) => i,
        None => types.len() as int,
    };
    let ib = match t1.index_of_first(b) {
        Some(i) => i,
        None => t1.len() as int,
    };
    assert(ia != ib) by {
        if ia == ib {
            if ib < t1.len() {
                assert(t1[ib] == b);
                if ia < types.len() {
                    assert(t1[ia] == types[ia]);
                } else {
                    assert(t1[ia] == a);
                }
            }
        }
    }
    assert(0 <= ia < 0x1_0000_0000int);
    assert(0 <= ib < 0x1_0000_0000int);
    if ia < ib {
        lemma_registered_ids_distinct(ia, ib);
    } else {
        lemma_registered_ids_distinct(ib, ia);
    }
}

/// The component id of type `T` in `registry`, registering `T` first when it
/// is new.
pub fn component_id<T: 'static>(registry: &mut ComponentRegistry) -> (id: ComponentId)
    requires
        old(registry).wf(),
    ensures
        final(registry).wf(),
        exists|ty: TypeId| (final(registry)@, id) == #[trigger] registered(old(registry)@, ty),
{
    let ty = type_id_of::<T>();
    registry.id_of(ty)
}

/// Kind of access a query asks for.
pub enum Access {
    Write,
    Read,
}

/// One component of a query together with the access it needs.
pub struct ComponentQuery {
    _id: ComponentId,
    _access: Access,
}

} // verus!
