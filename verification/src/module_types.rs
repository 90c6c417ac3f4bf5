//! The canonical type store: an append-only sequence of canonicalized type
//! definitions, the recursion-group ranges carved out of it, and the
//! trampoline back-pointer of every function-shaped definition.

use vstd::prelude::*;

use crate::types::WasmCompositeTypeView;
use crate::types::WasmSubType;

verus! {

/// The contiguous, half-open range of canonical type indices that one
/// canonical recursion group occupies.
#[derive(Clone, Copy, Debug, PartialEq, Eq, Structural)]
pub struct RecGroupRange {
    pub start: usize,
    pub end: usize,
}

/// The canonicalized and deduplicated types of one module.
#[derive(Clone, Debug)]
pub struct ModuleTypes {
    /// The canonical type definitions; a canonical type index is a position
    /// in this sequence. Grows monotonically, existing entries never change.
    pub wasm_types: Vec<WasmSubType>,
    /// The trampoline back-pointer of each definition, parallel to
    /// `wasm_types`; set at most once, after the defining group is closed.
    pub trampoline_types: Vec<Option<usize>>,
    /// The recursion-group ranges; a canonical recursion-group index is a
    /// position in this sequence.
    pub rec_groups: Vec<RecGroupRange>,
}

/// The mathematical model of a [`ModuleTypes`] store.
#[verifier::ext_equal]
pub ghost struct ModuleTypesView {
    pub wasm_types: Seq<WasmCompositeTypeView>,
    pub trampoline_types: Seq<Option<usize>>,
    pub rec_groups: Seq<RecGroupRange>,
}

impl View for ModuleTypes {
    type V = ModuleTypesView;

    open spec fn view(&self) -> ModuleTypesView {
        ModuleTypesView {
            wasm_types: self.wasm_types@.map_values(|t: WasmSubType| t@),
            trampoline_types: self.trampoline_types@,
            rec_groups: self.rec_groups@,
        }
    }
}

impl ModuleTypesView {
    /// Well-formedness: the back-pointer table is parallel to the type table
    /// and every group range lies inside the type table.
    pub open spec fn wf(self) -> bool {
        &&& self.trampoline_types.len() == self.wasm_types.len()
        &&& forall|k: int|
            0 <= k < self.rec_groups.len() ==> {
                &&& (#[trigger] self.rec_groups[k]).start <= self.rec_groups[k].end
                &&& self.rec_groups[k].end <= self.wasm_types.len()
            }
    }
}

impl Default for ModuleTypes {
    /// An empty store.
    fn default() -> (r: ModuleTypes)
        ensures
            r@.wasm_types == Seq::<WasmCompositeTypeView>::empty(),
            r@.trampoline_types == Seq::<Option<usize>>::empty(),
            r@.rec_groups == Seq::<RecGroupRange>::empty(),
            r@.wf(),
    {
        let r = ModuleTypes {
            wasm_types: Vec::new(),
            trampoline_types: Vec::new(),
            rec_groups: Vec::new(),
        };
        proof {
            assert(r@.wasm_types =~= Seq::<WasmCompositeTypeView>::empty());
        }
        r
    }
}

impl ModuleTypes {
    /// The number of canonical type definitions so far.
    pub fn len_types(&self) -> (r: usize)
        ensures
            r == self@.wasm_types.len(),
    {
        self.wasm_types.len()
    }

    /// The canonical type index the next appended definition will get.
    pub fn next_ty(&self) -> (r: usize)
        ensures
            r == self@.wasm_types.len(),
    {
        self.wasm_types.len()
    }

    /// The canonical recursion-group index the next closed group will get.
    pub fn next_rec_group(&self) -> (r: usize)
        ensures
            r == self@.rec_groups.len(),
    {
        self.rec_groups.len()
    }

    /// Append one canonical type definition, with no trampoline back-pointer
    /// yet, and return its canonical type index.
    pub fn push(&mut self, ty: WasmSubType) -> (r: usize)
        ensures
            r == old(self)@.wasm_types.len(),
            final(self)@.wasm_types == old(self)@.wasm_types.push(ty@),
            final(self)@.trampoline_types == old(self)@.trampoline_types.push(None),
            final(self)@.rec_groups == old(self)@.rec_groups,
    {
        let r = self.wasm_types.len();
        self.wasm_types.push(ty);
        self.trampoline_types.push(None);
        proof {
            assert(self@.wasm_types =~= old(self)@.wasm_types.push(self.wasm_types@.last()@));
        }
        r
    }

    /// Record one closed recursion group as the range `[start, end)` of
    /// canonical type indices, and return its canonical group index.
    pub fn push_rec_group(&mut self, start: usize, end: usize) -> (r: usize)
        requires
            start <= end <= old(self)@.wasm_types.len(),
        ensures
            r == old(self)@.rec_groups.len(),
            final(self)@.wasm_types == old(self)@.wasm_types,
            final(self)@.trampoline_types == old(self)@.trampoline_types,
            final(self)@.rec_groups == old(self)@.rec_groups.push(RecGroupRange { start, end }),
    {
        let r = self.rec_groups.len();
        self.rec_groups.push(RecGroupRange { start, end });
        r
    }

    /// Set the trampoline back-pointer of one definition. The back-pointer is
    /// written exactly once, after the defining group has been closed.
    pub fn set_trampoline_type(&mut self, ty: usize, trampoline: usize)
        requires
            ty < old(self)@.trampoline_types.len(),
            old(self)@.trampoline_types[ty as int] is None,
        ensures
            final(self)@.wasm_types == old(self)@.wasm_types,
            final(self)@.trampoline_types == old(self)@.trampoline_types.update(
                ty as int,
                Some(trampoline),
            ),
            final(self)@.rec_groups == old(self)@.rec_groups,
    {
        self.trampoline_types[ty] = Some(trampoline);
    }

    /// The definition at a canonical type index, if that index has been
    /// filled already.
    pub fn get(&self, ty: usize) -> (r: Option<&WasmSubType>)
        ensures
            match r {
                Some(t) => ty < self@.wasm_types.len() && t@ == self@.wasm_types[ty as int],
                None => ty >= self@.wasm_types.len(),
            },
    {
        if ty < self.wasm_types.len() {
            Some(&self.wasm_types[ty])
        } else {
            None
        }
    }

    /// The definition at a canonical type index.
    pub fn index(&self, ty: usize) -> (r: &WasmSubType)
        requires
            ty < self@.wasm_types.len(),
        ensures
            r@ == self@.wasm_types[ty as int],
    {
        &self.wasm_types[ty]
    }

    /// The canonical type indices within an already-closed recursion group,
    /// in declaration order: exactly the indices `[start, end)`.
    pub fn rec_group_elements(&self, rec_group: usize) -> (r: Vec<usize>)
        requires
            self@.wf(),
            rec_group < self@.rec_groups.len(),
        ensures
            r@.len() == self@.rec_groups[rec_group as int].end - self@.rec_groups[
                rec_group as int
            ].start,
            forall|i: int|
                0 <= i < r@.len() ==> r@[i] == self@.rec_groups[rec_group as int].start + i,
    {
        let range = self.rec_groups[rec_group];
        let mut out: Vec<usize> = Vec::new();
        let mut idx = range.start;
        while idx < range.end
            invariant
                range.start <= idx <= range.end,
                out@.len() == idx - range.start,
                forall|i: int| 0 <= i < out@.len() ==> out@[i] == range.start + i,
            decreases range.end - idx,
        {
            out.push(idx);
            idx = idx + 1;
        }
        out
    }

    /// The trampoline back-pointer of a function-shaped definition whose
    /// group has been closed.
    pub fn trampoline_type(&self, ty: usize) -> (r: usize)
        requires
            ty < self@.trampoline_types.len(),
            self@.trampoline_types[ty as int] is Some,
        ensures
            Some(r) == self@.trampoline_types[ty as int],
    {
        self.trampoline_types[ty].unwrap()
    }

    /// All definitions so far; a definition's position is its canonical type
    /// index.
    pub fn wasm_types(&self) -> (r: &Vec<WasmSubType>)
        ensures
            r@.len() == self@.wasm_types.len(),
            forall|i: int| 0 <= i < r@.len() ==> r@[i]@ == self@.wasm_types[i],
    {
        &self.wasm_types
    }

    /// Every `(function type, trampoline type)` index pair recorded so far,
    /// in increasing order of function type index.
    pub fn trampoline_types(&self) -> (r: Vec<(usize, usize)>)
        ensures
            r@ == trampoline_pairs(self@.trampoline_types),
    {
        let mut out: Vec<(usize, usize)> = Vec::new();
        let n = self.trampoline_types.len();
        for i in 0..n
            invariant
                n == self.trampoline_types.len(),
                out@ == trampoline_pairs(self@.trampoline_types.take(i as int)),
        {
            proof {
                assert(self@.trampoline_types.take(i + 1).drop_last() =~= self@.trampoline_types
                    .take(i as int));
                assert(self@.trampoline_types.take(i + 1).last() == self@.trampoline_types[
                    i as int
                ]);
            }
            match self.trampoline_types[i] {
                Some(j) => {
                    out.push((i, j));
                },
                None => {},
            }
        }
        proof {
            assert(self@.trampoline_types.take(n as int) =~= self@.trampoline_types);
        }
        out
    }
}

/// The `(function type, trampoline type)` index pairs recorded in a
/// back-pointer table, in increasing order of function type index.
pub open spec fn trampoline_pairs(tramps: Seq<Option<usize>>) -> Seq<(usize, usize)>
    decreases tramps.len(),
{
    if tramps.len() == 0 {
        Seq::empty()
    } else {
        let front = trampoline_pairs(tramps.drop_last());
        match tramps.last() {
            Some(j) => front.push(((tramps.len() - 1) as usize, j)),
            None => front,
        }
    }
}

} // verus!
