use vstd::prelude::*;

use crate::ecs::component::{Component, ComponentId, ComponentKind, ComponentLayout, ComponentMeta, ErasedComponent};
use crate::ecs::world::{ComponentWrite, ComponentWriteView};

verus! {


/// Largest number of distinct component ids an archetype mask can hold.
pub const MAX_COMPONENTS: usize = 256;

/// Number of 64-bit words in an [`ArchetypeMask`].
pub const WORDS: usize = 4;

/// Whether bit `k` of `x` is set.
pub open spec fn bit(x: u64, k: u64) -> bool {
    (x >> k) & 1u64 == 1u64
}

/// Setting bit `b` leaves every other bit alone and sets `b`.
pub proof fn lemma_bit_or(x: u64, b: u64, k: u64)
    requires
        b < 64,
        k < 64,
    ensures
        bit(x | (1u64 << b), k) == (bit(x, k) || k == b),
{
    assert(((x | (1u64 << b)) >> k) & 1u64 == 1u64 <==> (((x >> k) & 1u64 == 1u64) || k == b))
        by (bit_vector)
        requires
            b < 64,
            k < 64,
    ;
}

/// The empty word has no bit set.
pub proof fn lemma_bit_zero(k: u64)
    requires
        k < 64,
    ensures
        !bit(0u64, k),
{
    assert((0u64 >> k) & 1u64 != 1u64) by (bit_vector);
}

/// A word with some bit set at or above `k` has a set bit at or above `k`.
proof fn lemma_nonzero_has_bit(d: u64, k: u64)
    requires
        k < 64,
        (d >> k) != 0,
    ensures
        exists|j: u64| k <= j < 64 && #[trigger] bit(d, j),
    decreases 64 - k,
{
    if (d >> k) & 1u64 == 1u64 {
        assert(bit(d, k));
    } else {
        assert(k + 1 < 64 && (d >> ((k + 1) as u64)) != 0) by (bit_vector)
            requires
                k < 64,
                (d >> k) != 0,
                (d >> k) & 1u64 != 1u64,
        ;
        lemma_nonzero_has_bit(d, (k + 1) as u64);
    }
}

/// `a & b == b` holds exactly when every bit of `b` is a bit of `a`.
pub proof fn lemma_and_subset(a: u64, b: u64)
    ensures
        ((a & b) == b) <==> (forall|k: u64| k < 64 ==> (#[trigger] bit(b, k) ==> bit(a, k))),
{
    if (a & b) == b {
        assert forall|k: u64| k < 64 && #[trigger] bit(b, k) implies bit(a, k) by {
            assert(((a & b) == b && k < 64 && (b >> k) & 1u64 == 1u64) ==> (a >> k) & 1u64 == 1u64)
                by (bit_vector);
        }
    } else {
        let d = b & !a;
        assert(d >> 0u64 != 0) by (bit_vector)
            requires
                d == b & !a,
                (a & b) != b,
        ;
        lemma_nonzero_has_bit(d, 0);
        let j = choose|j: u64| 0 <= j < 64 && #[trigger] bit(d, j);
        assert(bit(b, j) && !bit(a, j)) by (bit_vector)
            requires
                d == b & !a,
                j < 64,
                (d >> j) & 1u64 == 1u64,
        ;
    }
}

/// Identifier of an entity: entities are numbered in spawn order.
#[derive(Debug, Clone, Copy, PartialEq, Eq, Structural, PartialOrd, Ord, Hash)]
pub struct EntityId(pub u32);

/// The set of the ids in `ids`.
pub open spec fn id_set(ids: Seq<ComponentId>) -> Set<nat> {
    Set::new(|i: nat| exists|k: int| 0 <= k < ids.len() && ids[k].0 as nat == i)
}

/// Ids that an [`ArchetypeMask`] can hold: below [`MAX_COMPONENTS`], at most
/// [`MAX_COMPONENTS`] of them.
pub open spec fn ids_in_range(ids: Seq<ComponentId>) -> bool {
    &&& ids.len() <= MAX_COMPONENTS
    &&& forall|j: int| 0 <= j < ids.len() ==> (#[trigger] ids[j].0) < MAX_COMPONENTS
}

/// A bit set of component ids below [`MAX_COMPONENTS`].
#[derive(Clone)]
pub struct ArchetypeMask {
    words: [u64; 4],
}

impl View for ArchetypeMask {
    type V = Set<nat>;

    /// The ids whose bits are set.
    closed spec fn view(&self) -> Set<nat> {
        Set::new(|i: nat| i < MAX_COMPONENTS && bit(self.words@[i as int / 64], (i % 64) as u64))
    }
}

impl ArchetypeMask {
    /// Builds the mask of the ids in `ids`.
    pub fn from_ids(ids: &[ComponentId]) -> (mask: ArchetypeMask)
        requires
            ids_in_range(ids@),
        ensures
            mask@ == id_set(ids@),
    {
        let mut mask = ArchetypeMask { words: [0u64, 0u64, 0u64, 0u64] };
        let n = ids.len();
        proof {
            assert forall|i: nat| !(#[trigger] mask@.contains(i)) by {
                if i < MAX_COMPONENTS {
                    lemma_bit_zero((i % 64) as u64);
                }
            }
            assert(mask@ =~= id_set(ids@.subrange(0, 0)));
        }
        let mut j: usize = 0;
        while j < n
            invariant
                n == ids@.len(),
                j <= n,
                ids_in_range(ids@),
                mask@ == id_set(ids@.subrange(0, j as int)),
            decreases n - j,
        {
            let id = ids[j];
            let word_index: usize = (id.0 / 64) as usize;
            let bit_index: u64 = (id.0 % 64) as u64;
            let ghost old_words = mask.words@;
            let w = mask.words[word_index];
            mask.words[word_index] = w | (1u64 << bit_index);
            proof {
                assert(ids@[j as int].0 < MAX_COMPONENTS);
                let sub = ids@.subrange(0, j as int + 1);
                assert forall|i: nat| #[trigger] mask@.contains(i) == id_set(sub).contains(i) by {
                    if i < MAX_COMPONENTS {
                        lemma_bit_or(w, bit_index, (i % 64) as u64);
                        assert(id_set(ids@.subrange(0, j as int)).contains(i) ==> id_set(sub).contains(i)) by {
                            if id_set(ids@.subrange(0, j as int)).contains(i) {
                                let k = choose|k: int| 0 <= k < j && ids@.subrange(0, j as int)[k].0 as nat == i;
                                assert(sub[k].0 as nat == i);
                            }
                        }
                        assert(id_set(sub).contains(i) ==> (id_set(ids@.subrange(0, j as int)).contains(i) || i == id.0)) by {
                            if id_set(sub).contains(i) {
                                let k = choose|k: int| 0 <= k < j + 1 && sub[k].0 as nat == i;
                                if k < j {
                                    assert(ids@.subrange(0, j as int)[k].0 as nat == i);
                                }
                            }
                        }
                        assert(sub[j as int] == id);
                    } else {
                        assert(!id_set(sub).contains(i)) by {
                            if id_set(sub).contains(i) {
                                let k = choose|k: int| 0 <= k < j + 1 && sub[k].0 as nat == i;
                                assert(ids@[k].0 < MAX_COMPONENTS);
                            }
                        }
                    }
                }
                assert(mask@ =~= id_set(sub));
            }
            j = j + 1;
        }
        proof {
            assert(ids@.subrange(0, n as int) =~= ids@);
        }
        mask
    }

    /// Whether every id of `other` is also in `self`.
    pub fn contains(&self, other: &ArchetypeMask) -> (r: bool)
        ensures
            r == other@.subset_of(self@),
    {
        let mut w: usize = 0;
        while w < WORDS
            invariant
                w <= WORDS,
                forall|v: int| 0 <= v < w ==> (#[trigger] self.words@[v] & other.words@[v]) == other.words@[v],
            decreases WORDS - w,
        {
            if (self.words[w] & other.words[w]) != other.words[w] {
                proof {
                    lemma_and_subset(self.words@[w as int], other.words@[w as int]);
                    let k = choose|k: u64| k < 64 && !(bit(other.words@[w as int], k) ==> bit(self.words@[w as int], k));
                    let i: nat = (w * 64 + k) as nat;
                    assert(i / 64 == w as int && i % 64 == k as int);
                    assert(other@.contains(i));
                    assert(!self@.contains(i));
                }
                return false;
            }
            w = w + 1;
        }
        proof {
            assert forall|i: nat| other@.contains(i) implies self@.contains(i) by {
                let v = i as int / 64;
                lemma_and_subset(self.words@[v], other.words@[v]);
                assert(bit(other.words@[v], (i % 64) as u64));
            }
        }
        true
    }
}


/// `n` zero bytes: what a slot that was never written holds.
pub open spec fn zeros(n: nat) -> Seq<u8> {
    Seq::new(n, |i: int| 0u8)
}

/// The capacity a full column grows to: twice the old one, saturating at
/// `usize::MAX`, and at least one.
pub open spec fn grown_capacity(capacity: usize) -> usize {
    let doubled = if capacity * 2 > usize::MAX { usize::MAX } else { (capacity * 2) as usize };
    if doubled < 1 { 1 } else { doubled }
}

/// Row `i` of a column with rows of `size` bytes starts at `i * size`, and
/// ends no later than the end of the column.
pub proof fn lemma_row_bounds(i: int, len: int, size: int)
    requires
        0 <= i < len,
        0 <= size,
    ensures
        0 <= i * size,
        i * size + size <= len * size,
{
    assert(0 <= i * size) by (nonlinear_arith)
        requires
            0 <= i,
            0 <= size,
    ;
    assert(i * size + size <= len * size) by (nonlinear_arith)
        requires
            0 <= i < len,
            0 <= size,
    ;
}

/// Abstract value of a [`Column`].
pub struct ColumnView {
    pub meta: ComponentMeta,
    pub capacity: usize,
    pub len: nat,
    pub bytes: Seq<u8>,
}

impl ColumnView {
    pub open spec fn size(self) -> nat {
        self.meta.layout.size as nat
    }

    /// The bytes of row `i`.
    pub open spec fn row(self, i: int) -> Seq<u8> {
        self.bytes.subrange(i * self.size(), i * self.size() + self.size())
    }

    /// The rows of the column, in order.
    pub open spec fn rows(self) -> Seq<Seq<u8>> {
        Seq::new(self.len, |i: int| self.row(i))
    }

    /// What slot `i` holds: its row when it was written, zeros otherwise.
    pub open spec fn cell(self, i: int) -> Seq<u8> {
        if 0 <= i < self.len {
            self.row(i)
        } else {
            zeros(self.size())
        }
    }

    /// The column after one row is appended: a full column with a positive
    /// row size first grows its capacity.
    pub open spec fn push_one(self, row: Seq<u8>) -> ColumnView {
        ColumnView {
            meta: self.meta,
            capacity: if self.size() == 0 || self.len < self.capacity {
                self.capacity
            } else {
                grown_capacity(self.capacity)
            },
            len: self.len + 1,
            bytes: self.bytes + row,
        }
    }

    /// The column after `rows` are appended one by one.
    pub open spec fn push_all(self, rows: Seq<Seq<u8>>) -> ColumnView
        decreases rows.len(),
    {
        if rows.len() == 0 {
            self
        } else {
            self.push_all(rows.drop_last()).push_one(rows.last())
        }
    }

    /// The storage invariant: the bytes are exactly `len` rows, the rows fit
    /// in the capacity, and zero-sized components have unbounded capacity.
    pub open spec fn wf(self) -> bool {
        &&& self.meta.layout.valid()
        &&& self.bytes.len() == self.len * self.size()
        &&& self.len <= self.capacity
        &&& self.size() == 0 ==> self.capacity == usize::MAX
    }
}

/// Contiguous storage for the values of one component type: row `i` is the
/// `size` bytes at offset `i * size`.
pub struct Column {
    data: Vec<u8>,
    len: usize,
    capacity: usize,
    meta: ComponentMeta,
}

impl View for Column {
    type V = ColumnView;

    closed spec fn view(&self) -> ColumnView {
        ColumnView { meta: self.meta, capacity: self.capacity, len: self.len as nat, bytes: self.data@ }
    }
}

impl Column {
    pub open spec fn wf(&self) -> bool {
        self@.wf()
    }

    /// Creates an empty column for `capacity` values; zero-sized components
    /// get unbounded capacity.
    pub fn new(capacity: usize, id: ComponentId, layout: ComponentLayout, kind: ComponentKind) -> (col: Column)
        requires
            layout.valid(),
            layout.size == 0 || (capacity > 0 && layout.fits(capacity as int)),
        ensures
            col.wf(),
            col@.meta == (ComponentMeta { id, kind, layout }),
            col@.len == 0,
            col@.capacity == if layout.size == 0 { usize::MAX } else { capacity },
    {
        let meta = ComponentMeta { id, kind, layout };
        if meta.layout.size == 0 {
            Column { data: Vec::new(), len: 0, capacity: usize::MAX, meta }
        } else {
            let total_size = meta.layout.size * capacity;
            let col = Column { data: Vec::with_capacity(total_size), len: 0, capacity, meta };
            proof {
                assert(0 * (meta.layout.size as int) == 0) by (nonlinear_arith);
            }
            col
        }
    }

    /// Appends one value, copying the first `size` bytes of `data`, and
    /// doubles the capacity first when the column is full.
    fn push_bytes(&mut self, data: &[u8])
        requires
            old(self).wf(),
            data@.len() >= old(self)@.size(),
            old(self)@.len < usize::MAX,
        ensures
            final(self).wf(),
            final(self)@ == old(self)@.push_one(data@.subrange(0, old(self)@.size() as int)),
    {
        let size = self.meta.layout.size;
        if size == 0 {
            self.len = self.len + 1;
            proof {
                vstd::arithmetic::mul::lemma_mul_basics(self.len as int);
                vstd::arithmetic::mul::lemma_mul_basics(old(self).len as int);
                assert(data@.subrange(0, 0) =~= Seq::<u8>::empty());
                assert(self.data@ =~= old(self).data@ + data@.subrange(0, 0));
            }
            return;
        }
        if self.len >= self.capacity {
            let doubled = match self.capacity.checked_mul(2) {
                Some(c) => c,
                None => usize::MAX,
            };
            self.capacity = if doubled < 1 { 1 } else { doubled };
        }
        let ghost before = self.data@;
        let ghost cap = self.capacity;
        let mut k: usize = 0;
        while k < size
            invariant
                k <= size,
                self.len == old(self).len,
                self.capacity == cap,
                self.meta == old(self).meta,
                size == self.meta.layout.size,
                size <= data@.len(),
                self.data@ == before + data@.subrange(0, k as int),
            decreases size - k,
        {
            self.data.push(data[k]);
            proof {
                assert(self.data@ =~= before + data@.subrange(0, k as int + 1));
            }
            k = k + 1;
        }
        let ghost old_len = self.len as int;
        self.len = self.len + 1;
        proof {
            let n = self.data@.len() as int;
            let sz = size as int;
            assert(n == (old_len + 1) * sz) by (nonlinear_arith)
                requires
                    n == old_len * sz + sz,
            ;
        }
    }

    /// Appends a component value, copying the first `size` bytes of its
    /// representation.
    pub fn push<C: Component>(&mut self, component: &C)
        requires
            old(self).wf(),
            component.spec_bytes().len() >= old(self)@.size(),
            old(self)@.len < usize::MAX,
        ensures
            final(self).wf(),
            final(self)@ == old(self)@.push_one(component.spec_bytes().subrange(0, old(self)@.size() as int)),
    {
        let bytes = component.to_bytes();
        self.push_bytes(bytes.as_slice());
    }

    /// Appends a type-erased component.
    pub fn push_erased(&mut self, component: &ErasedComponent)
        requires
            old(self).wf(),
            component.data@.len() >= old(self)@.size(),
            old(self)@.len < usize::MAX,
        ensures
            final(self).wf(),
            final(self)@ == old(self)@.push_one(component.data@.subrange(0, old(self)@.size() as int)),
            final(self)@.rows() == old(self)@.rows().push(component.data@.subrange(0, old(self)@.size() as int)),
    {
        self.push_bytes(component.data.as_slice());
        proof {
            lemma_push_rows(old(self)@, self@, component.data@.subrange(0, old(self)@.size() as int));
        }
    }

    /// Grows the column with zero rows until it has `n` rows.
    fn extend_to(&mut self, n: usize)
        requires
            old(self).wf(),
            old(self)@.len <= n <= old(self)@.capacity,
        ensures
            final(self).wf(),
            final(self)@.meta == old(self)@.meta,
            final(self)@.capacity == old(self)@.capacity,
            final(self)@.len == n,
            forall|i: int| #![trigger final(self)@.cell(i)] final(self)@.cell(i) == old(self)@.cell(i),
    {
        let size = self.meta.layout.size;
        let mut zero: Vec<u8> = Vec::new();
        let mut k: usize = 0;
        while k < size
            invariant
                k <= size,
                zero@ == zeros(k as nat),
            decreases size - k,
        {
            zero.push(0u8);
            proof {
                assert(zero@ =~= zeros(k as nat + 1));
            }
            k = k + 1;
        }
        while self.len < n
            invariant
                self.wf(),
                size == self.meta.layout.size,
                zero@ == zeros(size as nat),
                self@.meta == old(self)@.meta,
                self@.capacity == old(self)@.capacity,
                old(self)@.len <= self@.len <= n <= self@.capacity,
                forall|i: int| #![trigger self@.cell(i)] self@.cell(i) == old(self)@.cell(i),
            decreases n - self.len,
        {
            let ghost before = self@;
            self.push_bytes(zero.as_slice());
            proof {
                assert(zero@.subrange(0, size as int) =~= zero@);
                lemma_push_rows(before, self@, zero@);
                assert forall|i: int| #![trigger self@.cell(i)] self@.cell(i) == before.cell(i) by {
                    if 0 <= i < before.len {
                        assert(self@.rows()[i] == before.rows()[i]);
                    } else if i == before.len {
                        assert(self@.rows()[i] == zero@);
                    }
                }
            }
        }
    }

    /// Writes `bytes` over the start of slot `row`; slots between the last
    /// row and `row` become zero rows.
    pub(crate) fn write_row(&mut self, row: usize, bytes: &[u8])
        requires
            old(self).wf(),
            row < old(self)@.capacity,
            bytes@.len() <= old(self)@.size(),
        ensures
            final(self).wf(),
            final(self)@.meta == old(self)@.meta,
            final(self)@.capacity == old(self)@.capacity,
            final(self)@.len == if row < old(self)@.len { old(self)@.len } else { row as nat + 1 },
            final(self)@.cell(row as int) == bytes@ + old(self)@.cell(row as int).subrange(
                bytes@.len() as int,
                old(self)@.size() as int,
            ),
            forall|i: int| i != row ==> #[trigger] final(self)@.cell(i) == old(self)@.cell(i),
    {
        if self.len <= row {
            self.extend_to(row + 1);
        }
        let ghost mid = self@;
        let size = self.meta.layout.size;
        let total = self.data.len();
        proof {
            lemma_row_bounds(row as int, self.len as int, size as int);
        }
        let start = row * size;
        let n = bytes.len();
        let mut k: usize = 0;
        while k < n
            invariant
                k <= n,
                n == bytes@.len(),
                n <= size,
                start == row * size,
                start + size <= total,
                total == self.data@.len(),
                total == mid.bytes.len(),
                self@.meta == mid.meta,
                self@.capacity == mid.capacity,
                self@.len == mid.len,
                self.data@ == mid.bytes.subrange(0, start as int) + bytes@.subrange(0, k as int)
                    + mid.bytes.subrange(start + k, total as int),
            decreases n - k,
        {
            self.data.set(start + k, bytes[k]);
            proof {
                assert(self.data@ =~= mid.bytes.subrange(0, start as int) + bytes@.subrange(0, k as int + 1)
                    + mid.bytes.subrange(start + k + 1, total as int));
            }
            k = k + 1;
        }
        proof {
            let s = size as int;
            let r = row as int;
            assert(self@.row(r) =~= bytes@ + mid.cell(r).subrange(n as int, s));
            assert forall|i: int| i != row implies #[trigger] self@.cell(i) == old(self)@.cell(i) by {
                assert(mid.cell(i) == old(self)@.cell(i));
                if 0 <= i < self@.len {
                    if i < r {
                        lemma_row_bounds(i, r, s);
                    } else {
                        lemma_row_bounds(r, i, s);
                        lemma_row_bounds(i, self@.len as int, s);
                    }
                    assert(self@.row(i) =~= mid.row(i));
                }
            }
        }
    }

    /// A copy of the bytes of slot `i`: its row when it was written, zeros
    /// otherwise.
    pub(crate) fn read_cell(&self, i: usize) -> (r: Vec<u8>)
        requires
            self.wf(),
        ensures
            r@ == self@.cell(i as int),
    {
        let size = self.meta.layout.size;
        let mut out: Vec<u8> = Vec::new();
        if i < self.len {
            let total = self.data.len();
            proof {
                lemma_row_bounds(i as int, self.len as int, size as int);
            }
            let start = i * size;
            let mut k: usize = 0;
            while k < size
                invariant
                    k <= size,
                    start + size <= total,
                    total == self.data@.len(),
                    out@ == self.data@.subrange(start as int, start + k),
                decreases size - k,
            {
                out.push(self.data[start + k]);
                proof {
                    assert(out@ =~= self.data@.subrange(start as int, start + k + 1));
                }
                k = k + 1;
            }
        } else {
            let mut k: usize = 0;
            while k < size
                invariant
                    k <= size,
                    out@ == zeros(k as nat),
                decreases size - k,
            {
                out.push(0u8);
                proof {
                    assert(out@ =~= zeros(k as nat + 1));
                }
                k = k + 1;
            }
        }
        out
    }

    pub fn component_meta(&self) -> (meta: &ComponentMeta)
        ensures
            *meta == self@.meta,
    {
        &self.meta
    }

    /// The bytes of all rows, row after row.
    pub fn as_ptr(&self) -> (bytes: &[u8])
        ensures
            bytes@ == self@.bytes,
    {
        self.data.as_slice()
    }

    /// The bytes of all rows, row after row, for writing in place.
    pub fn as_ptr_mut(&mut self) -> (bytes: &mut [u8])
        ensures
            bytes@ == old(self)@.bytes,
            final(self)@ == (ColumnView { bytes: final(bytes)@, ..old(self)@ }),
    {
        self.data.as_mut_slice()
    }
}

/// Every slot of a well-formed column is `size` bytes long.
pub proof fn lemma_cell_len(c: ColumnView, i: int)
    requires
        c.wf(),
    ensures
        c.cell(i).len() == c.size(),
{
    if 0 <= i < c.len {
        lemma_row_bounds(i, c.len as int, c.size() as int);
    }
}

/// Appending one row of `size` bytes to the bytes of a column appends it to
/// its rows.
pub proof fn lemma_push_rows(old_col: ColumnView, new_col: ColumnView, row: Seq<u8>)
    requires
        old_col.wf(),
        new_col.meta == old_col.meta,
        new_col.len == old_col.len + 1,
        row.len() == old_col.size(),
        new_col.bytes == old_col.bytes + row,
    ensures
        new_col.rows() == old_col.rows().push(row),
{
    let s = old_col.size() as int;
    assert forall|i: int| 0 <= i < new_col.len implies #[trigger] new_col.rows()[i] == old_col.rows().push(row)[i] by {
        if i < old_col.len {
            lemma_row_bounds(i, old_col.len as int, s);
            assert(new_col.row(i) =~= old_col.row(i));
        } else {
            assert(i * s == old_col.len * s);
            assert(new_col.row(i) =~= row);
        }
    }
    assert(new_col.rows() =~= old_col.rows().push(row));
}


/// Index of the last of `ids` equal to `id`: the column that an archetype
/// maps a component id to.
pub open spec fn last_index_of(ids: Seq<ComponentId>, id: nat) -> Option<int>
    decreases ids.len(),
{
    if ids.len() == 0 {
        None
    } else if ids.last().0 as nat == id {
        Some(ids.len() - 1)
    } else {
        last_index_of(ids.drop_last(), id)
    }
}

/// What [`last_index_of`] returns is an index of `ids` holding `id`, and
/// no later index holds `id`.
pub proof fn lemma_last_index_of(ids: Seq<ComponentId>, id: nat)
    ensures
        last_index_of(ids, id) matches Some(j) ==> 0 <= j < ids.len() && ids[j].0 as nat == id
            && forall|k: int| j < k < ids.len() ==> ids[k].0 as nat != id,
        last_index_of(ids, id) is None ==> forall|k: int| 0 <= k < ids.len() ==> ids[k].0 as nat != id,
    decreases ids.len(),
{
    if ids.len() > 0 {
        let d = ids.drop_last();
        lemma_last_index_of(d, id);
        assert(forall|k: int| 0 <= k < d.len() ==> #[trigger] d[k] == ids[k]);
        if ids.last().0 as nat != id {
            assert(last_index_of(ids, id) == last_index_of(d, id));
            if let Some(j) = last_index_of(d, id) {
                assert forall|k: int| j < k < ids.len() implies ids[k].0 as nat != id by {
                    if k < d.len() {
                        assert(d[k] == ids[k]);
                    }
                }
            }
            if last_index_of(d, id) is None {
                assert forall|k: int| 0 <= k < ids.len() implies ids[k].0 as nat != id by {
                    if k < d.len() {
                        assert(d[k] == ids[k]);
                    }
                }
            }
        }
    }
}

/// Columns and a lookup table from component id to column index agree.
pub open spec fn storage_wf(columns: Seq<Column>, column_map: Seq<Option<usize>>) -> bool {
    let ids = columns.map_values(|c: Column| c@.meta.id);
    &&& column_map.len() == MAX_COMPONENTS
    &&& columns.len() <= usize::MAX
    &&& forall|j: int| 0 <= j < columns.len() ==> (#[trigger] columns[j]).wf()
    &&& forall|j: int| 0 <= j < columns.len() ==> (#[trigger] columns[j])@.meta.id.0 < MAX_COMPONENTS
    &&& forall|i: int| 0 <= i < MAX_COMPONENTS ==> #[trigger] column_map[i] == match last_index_of(ids, i as nat) {
        Some(j) => Some(j as usize),
        None => None,
    }
}

/// Abstract value of an [`Archetype`].
pub struct ArchetypeView {
    pub mask: Set<nat>,
    pub columns: Seq<ColumnView>,
    pub entities: Seq<EntityId>,
}

impl ArchetypeView {
    /// The component id of each column, in column order.
    pub open spec fn column_ids(self) -> Seq<ComponentId> {
        self.columns.map_values(|c: ColumnView| c.meta.id)
    }

    /// The column that holds component `id`, if any.
    pub open spec fn column_index(self, id: nat) -> Option<int> {
        last_index_of(self.column_ids(), id)
    }

    /// Whether the mask holds every id of `ids`.
    pub open spec fn has_components(self, ids: Seq<ComponentId>) -> bool {
        id_set(ids).subset_of(self.mask)
    }

    /// Whether `write` can be applied at `row`: the archetype has a column
    /// for the component, the row is within its capacity, and the bytes fit
    /// the column's kind: a whole value for plain data, a pointer-sized
    /// handle that fits in the slot for external values.
    pub open spec fn can_apply(self, write: ComponentWriteView, row: int) -> bool {
        &&& self.column_index(write.component_id.0 as nat) is Some
        &&& {
            let col = self.columns[self.column_index(write.component_id.0 as nat).unwrap()];
            &&& 0 <= row < col.capacity
            &&& match col.meta.kind {
                ComponentKind::Pod => write.bytes.len() == col.size(),
                ComponentKind::Extern => write.bytes.len() == vstd::layout::size_of::<usize>()
                    && write.bytes.len() <= col.size(),
            }
        }
    }

    /// The archetype after `write` is applied at `row` of the column of its
    /// component: the slot starts with the written bytes, the rest of the slot
    /// keeps its old bytes, and missing rows before it become zero rows.
    pub open spec fn applied(self, write: ComponentWriteView, row: int, result: ArchetypeView) -> bool {
        let j = self.column_index(write.component_id.0 as nat).unwrap();
        let col = self.columns[j];
        let new_col = result.columns[j];
        &&& result.mask == self.mask
        &&& result.entities == self.entities
        &&& result.columns.len() == self.columns.len()
        &&& forall|k: int| 0 <= k < self.columns.len() && k != j ==> #[trigger] result.columns[k] == self.columns[k]
        &&& new_col.meta == col.meta
        &&& new_col.capacity == col.capacity
        &&& new_col.len == if row < col.len { col.len } else { row as nat + 1 }
        &&& new_col.cell(row) == write.bytes + col.cell(row).subrange(write.bytes.len() as int, col.size() as int)
        &&& forall|i: int| i != row ==> #[trigger] new_col.cell(i) == col.cell(i)
    }
}

/// The storage of all entities that share one set of component types: one
/// column per component type and the entities, row by row.
pub struct Archetype {
    mask: ArchetypeMask,
    columns: Vec<Column>,
    entities: Vec<EntityId>,
    column_map: Vec<Option<usize>>,
}

impl View for Archetype {
    type V = ArchetypeView;

    closed spec fn view(&self) -> ArchetypeView {
        ArchetypeView {
            mask: self.mask@,
            columns: self.columns@.map_values(|c: Column| c@),
            entities: self.entities@,
        }
    }
}

impl Archetype {
    /// The storage invariant: every column is well formed and has an id below
    /// [`MAX_COMPONENTS`], and the lookup table sends each id to its column.
    pub closed spec fn wf(&self) -> bool {
        storage_wf(self.columns@, self.column_map@)
    }

    /// The columns of a well-formed archetype are well formed.
    pub proof fn lemma_columns_wf(&self)
        requires
            self.wf(),
        ensures
            forall|j: int| 0 <= j < self@.columns.len() ==> (#[trigger] self@.columns[j]).wf(),
    {
        assert forall|j: int| 0 <= j < self@.columns.len() implies (#[trigger] self@.columns[j]).wf() by {
            assert(self@.columns[j] == self.columns@[j]@);
        }
    }

    proof fn lemma_column_ids(&self)
        ensures
            self@.column_ids() == self.columns@.map_values(|c: Column| c@.meta.id),
    {
        assert(self@.column_ids() =~= self.columns@.map_values(|c: Column| c@.meta.id));
    }

    /// What a lookup of `id` needs: ids of `MAX_COMPONENTS` or more have no
    /// column, the map entry of a smaller id is its column index, and a
    /// found column is in range and is the stored column.
    proof fn lemma_lookup(&self, id: ComponentId)
        requires
            self.wf(),
        ensures
            id.0 >= MAX_COMPONENTS ==> self@.column_index(id.0 as nat) is None,
            id.0 < MAX_COMPONENTS ==> self.column_map@[id.0 as int] == match self@.column_index(id.0 as nat) {
                Some(x) => Some(x as usize),
                None => None,
            },
            self@.column_index(id.0 as nat) matches Some(x) ==> {
                &&& 0 <= x < self.columns@.len()
                &&& self@.columns[x] == self.columns@[x]@
            },
    {
        self.lemma_column_ids();
        lemma_last_index_of(self@.column_ids(), id.0 as nat);
        if let Some(j) = self@.column_index(id.0 as nat) {
            assert(self.columns@[j]@.meta.id.0 < MAX_COMPONENTS);
        }
    }

    /// Creates an archetype with no entities.
    pub fn new(mask: ArchetypeMask, columns: Vec<Column>) -> (arch: Archetype)
        requires
            forall|j: int| 0 <= j < columns@.len() ==> (#[trigger] columns@[j]).wf(),
            forall|j: int| 0 <= j < columns@.len() ==> (#[trigger] columns@[j])@.meta.id.0 < MAX_COMPONENTS,
        ensures
            arch.wf(),
            arch@.mask == mask@,
            arch@.columns == columns@.map_values(|c: Column| c@),
            arch@.entities == Seq::<EntityId>::empty(),
    {
        let mut map: Vec<Option<usize>> = Vec::new();
        let mut i: usize = 0;
        while i < MAX_COMPONENTS
            invariant
                i <= MAX_COMPONENTS,
                map@.len() == i,
                forall|k: int| 0 <= k < i ==> map@[k] is None,
            decreases MAX_COMPONENTS - i,
        {
            map.push(None);
            i = i + 1;
        }
        let ghost ids = columns@.map_values(|c: Column| c@.meta.id);
        let n = columns.len();
        let mut j: usize = 0;
        while j < n
            invariant
                n == columns@.len(),
                ids == columns@.map_values(|c: Column| c@.meta.id),
                j <= n,
                map@.len() == MAX_COMPONENTS,
                forall|k: int| 0 <= k < columns@.len() ==> (#[trigger] columns@[k])@.meta.id.0 < MAX_COMPONENTS,
                forall|k: int| 0 <= k < MAX_COMPONENTS ==> #[trigger] map@[k] == match last_index_of(ids.subrange(0, j as int), k as nat) {
                    Some(x) => Some(x as usize),
                    None => None,
                },
            decreases n - j,
        {
            let id = columns[j].component_meta().id.0 as usize;
            map[id] = Some(j);
            proof {
                let sub = ids.subrange(0, j as int + 1);
                assert(sub.drop_last() =~= ids.subrange(0, j as int));
                assert(sub.last() == columns@[j as int]@.meta.id);
            }
            j = j + 1;
        }
        proof {
            assert(ids.subrange(0, n as int) =~= ids);
        }
        let arch = Archetype { mask, columns, entities: Vec::new(), column_map: map };
        proof {
            assert(arch@.column_ids() =~= ids);
        }
        arch
    }

    /// Whether this archetype's mask holds every id of `ids`.
    pub fn has_components(&self, ids: &[ComponentId]) -> (r: bool)
        requires
            ids_in_range(ids@),
        ensures
            r == self@.has_components(ids@),
    {
        let mask = ArchetypeMask::from_ids(ids);
        self.mask.contains(&mask)
    }

    /// The column holding component `id`, if any.
    pub fn get_column_with_component(&self, id: ComponentId) -> (r: Option<&Column>)
        requires
            self.wf(),
        ensures
            r is Some <==> self@.column_index(id.0 as nat) is Some,
            r matches Some(c) ==> c@ == self@.columns[self@.column_index(id.0 as nat).unwrap()],
            id.0 >= MAX_COMPONENTS ==> r is None,
    {
        proof {
            self.lemma_lookup(id);
        }
        let idx = id.0 as usize;
        if idx >= MAX_COMPONENTS {
            return None;
        }
        match self.column_map[idx] {
            Some(j) => Some(&self.columns[j]),
            None => None,
        }
    }

    /// The column holding component `id`, if any, for writing.
    pub fn get_column_with_component_mut(&mut self, id: ComponentId) -> (r: Option<&mut Column>)
        requires
            old(self).wf(),
        ensures
            r is Some <==> old(self)@.column_index(id.0 as nat) is Some,
            r is None ==> *final(self) == *old(self),
            r matches Some(c) ==> {
                let j = old(self)@.column_index(id.0 as nat).unwrap();
                &&& c@ == old(self)@.columns[j]
                &&& final(self)@ == (ArchetypeView {
                    columns: old(self)@.columns.update(j, final(c)@),
                    ..old(self)@
                })
                &&& (final(c).wf() && final(c)@.meta == c@.meta) ==> final(self).wf()
            },
            id.0 >= MAX_COMPONENTS ==> r is None,
    {
        proof {
            self.lemma_lookup(id);
        }
        let idx = id.0 as usize;
        if idx >= MAX_COMPONENTS {
            return None;
        }
        match self.column_map[idx] {
            Some(j) => {
                proof {
                    assert forall|c: Column| (#[trigger] self.columns@.update(j as int, c)).map_values(|c: Column| c@)
                        == self@.columns.update(j as int, c@) by {
                        assert(self.columns@.update(j as int, c).map_values(|c: Column| c@)
                            =~= self@.columns.update(j as int, c@));
                    }
                    assert forall|c: Column| c.wf() && c@.meta == self.columns@[j as int]@.meta implies
                        #[trigger] storage_wf(self.columns@.update(j as int, c), self.column_map@) by {
                        let cols = self.columns@.update(j as int, c);
                        assert(cols.map_values(|c: Column| c@.meta.id) =~= self.columns@.map_values(|c: Column| c@.meta.id));
                    }
                }
                Some(&mut self.columns[j])
            },
            None => None,
        }
    }

    /// The index of the column holding component `id`, if any.
    pub fn column_index(&self, id: ComponentId) -> (r: Option<usize>)
        requires
            self.wf(),
        ensures
            r == match self@.column_index(id.0 as nat) {
                Some(j) => Some(j as usize),
                None => None::<usize>,
            },
            r matches Some(k) ==> self@.column_index(id.0 as nat) == Some(k as int) && k < self@.columns.len(),
            id.0 >= MAX_COMPONENTS ==> r is None,
    {
        proof {
            self.lemma_lookup(id);
        }
        let idx = id.0 as usize;
        if idx >= MAX_COMPONENTS {
            return None;
        }
        self.column_map[idx]
    }

    pub fn entities(&self) -> (r: &[EntityId])
        ensures
            r@ == self@.entities,
    {
        self.entities.as_slice()
    }

    pub fn columns(&self) -> (r: &[Column])
        ensures
            r@.map_values(|c: Column| c@) == self@.columns,
            self.wf() ==> forall|j: int| 0 <= j < r@.len() ==> (#[trigger] r@[j]).wf(),
    {
        self.columns.as_slice()
    }

    /// The columns, for writing in place.
    pub fn columns_mut(&mut self) -> (r: &mut [Column])
        ensures
            r@.map_values(|c: Column| c@) == old(self)@.columns,
            final(self)@ == (ArchetypeView { columns: final(r)@.map_values(|c: Column| c@), ..old(self)@ }),
    {
        self.columns.as_mut_slice()
    }
}

impl Archetype {
    /// Writes the component of `write` into slot `row` of its column.
    pub fn apply_write(&mut self, write: &ComponentWrite, row: usize)
        requires
            old(self).wf(),
            old(self)@.can_apply(write@, row as int),
        ensures
            final(self).wf(),
            old(self)@.applied(write@, row as int, final(self)@),
    {
        let ghost j = self@.column_index(write.component_id.0 as nat).unwrap();
        proof {
            self.lemma_column_ids();
            lemma_last_index_of(self@.column_ids(), write.component_id.0 as nat);
            assert(self.column_map@[write.component_id.0 as int] == Some(j as usize));
        }
        let col_idx = match self.column_map[write.component_id.0 as usize] {
            Some(idx) => idx,
            None => {
                return;
            },
        };
        proof {
            assert(self.columns@[j]@ == self@.columns[j]);
        }
        let ghost old_cols = self.columns@;
        self.columns[col_idx].write_row(row, write.bytes.as_slice());
        proof {
            let column = self.columns@[j];
            assert(self.columns@ =~= old_cols.update(j, column));
            let cols = self.columns@;
            assert(cols.map_values(|c: Column| c@.meta.id) =~= old_cols.map_values(|c: Column| c@.meta.id));
            assert(self@.columns =~= old(self)@.columns.update(j, column@));
        }
    }
}

impl Archetype {
    /// Appends `comp` to the column of its component.
    pub(crate) fn push_component(&mut self, comp: &ErasedComponent)
        requires
            old(self).wf(),
            old(self)@.column_index(comp.id.0 as nat) is Some,
            comp.data@.len() >= old(self)@.columns[old(self)@.column_index(comp.id.0 as nat).unwrap()].size(),
            old(self)@.columns[old(self)@.column_index(comp.id.0 as nat).unwrap()].len < usize::MAX,
        ensures
            final(self).wf(),
            final(self)@ == ({
                let j = old(self)@.column_index(comp.id.0 as nat).unwrap();
                let col = old(self)@.columns[j];
                ArchetypeView {
                    columns: old(self)@.columns.update(j, col.push_one(comp.data@.subrange(0, col.size() as int))),
                    ..old(self)@
                }
            }),
    {
        let ghost j = self@.column_index(comp.id.0 as nat).unwrap();
        proof {
            self.lemma_column_ids();
            lemma_last_index_of(self@.column_ids(), comp.id.0 as nat);
            assert(self.column_map@[comp.id.0 as int] == Some(j as usize));
            assert(self.columns@[j]@ == self@.columns[j]);
        }
        let col_idx = match self.column_map[comp.id.0 as usize] {
            Some(idx) => idx,
            None => {
                return;
            },
        };
        let ghost old_cols = self.columns@;
        self.columns[col_idx].push_erased(comp);
        proof {
            let column = self.columns@[j];
            assert(self.columns@ =~= old_cols.update(j, column));
            let cols = self.columns@;
            assert(cols.map_values(|c: Column| c@.meta.id) =~= old_cols.map_values(|c: Column| c@.meta.id));
            assert(self@.columns =~= old(self)@.columns.update(j, column@));
        }
    }

    /// Appends an entity and returns its row.
    pub(crate) fn add_entity(&mut self, id: EntityId) -> (row: usize)
        ensures
            row == old(self)@.entities.len(),
            final(self)@ == (ArchetypeView { entities: old(self)@.entities.push(id), ..old(self)@ }),
            old(self).wf() ==> final(self).wf(),
    {
        let row = self.entities.len();
        self.entities.push(id);
        row
    }
}

} // verus!
