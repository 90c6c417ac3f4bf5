//! A builder for [`ModuleTypes`]: the interner that owns the canonical type
//! store, the recursion-group lifecycle, and the deduplication tables.

use vstd::prelude::*;

use crate::convert::body_ok;
use crate::convert::group_convert;
use crate::convert::group_refs_ok;
use crate::convert::spec_convert_sub;
use crate::convert::is_member;
use crate::convert::lemma_group_convert_index;
use crate::convert::lemma_group_err_stable;
use crate::convert::member_position;
use crate::convert::reserve_map;
use crate::convert::ConvertContext;
use crate::convert::WasmparserTypeConverter;
use crate::id_map::IdMap;
use crate::module_types::ModuleTypes;
use crate::module_types::ModuleTypesView;
use crate::module_types::RecGroupRange;
use crate::types::clone_func_type;
use crate::types::lemma_trampoline_func_type_idempotent;
use crate::types::trampoline_func_type;
use crate::types::TrampolineType;
use crate::types::TypesError;
use crate::types::WasmCompositeType;
use crate::types::WasmCompositeTypeView;
use crate::types::WasmFuncType;
use crate::types::WasmFuncTypeView;
use crate::types::WasmSubType;
use crate::validator_types::ValidatorTypes;
use crate::validator_types::ValidatorTypesView;

verus! {

/// The module's own type-index space: a table from module-local type indices
/// to canonical type indices, maintained by the caller as groups are
/// interned.
#[derive(Clone, Debug)]
pub struct Module {
    pub types: Vec<usize>,
}

/// The reservation made when a recursion group's definition starts: the
/// canonical group index it will receive and the contiguous block of
/// canonical type indices `[start, end)` reserved for its members.
#[derive(Clone, Copy, Debug, PartialEq, Eq, Structural)]
pub struct RecGroupStart {
    pub rec_group_index: usize,
    pub start: usize,
    pub end: usize,
}

/// A builder for [`ModuleTypes`].
///
/// The builder is bound to exactly one validator session for its whole
/// lifetime; the ghost `session` field records which one, and every operation
/// requires the caller to supply that same session's table.
pub struct ModuleTypesBuilder {
    /// The id of the validator session this builder is bound to.
    pub validator_id: u64,
    /// The canonicalized and deduplicated set of types being built.
    pub types: ModuleTypes,
    /// The trampoline deduplication table: every normalized function
    /// signature interned so far, with its canonical type index.
    pub trampoline_types: Vec<(WasmFuncType, usize)>,
    /// The map from source-side type ids to canonical type indices,
    /// populated eagerly for all members of a group when it is reserved.
    pub wasmparser_to_wasmtime: IdMap,
    /// The map from source-side recursion-group ids to canonical
    /// recursion-group indices; a group is recorded only once fully interned.
    pub already_seen: IdMap,
    /// The reservation of the group currently being defined, if any.
    pub defining_rec_group: Option<RecGroupStart>,
    /// The validator session this builder is bound to.
    pub session: Ghost<ValidatorTypesView>,
}

impl ModuleTypesBuilder {
    /// The trampoline cache's mathematical model.
    pub open spec fn cache(&self) -> Seq<(WasmFuncTypeView, usize)> {
        self.trampoline_types@.map_values(|e: (WasmFuncType, usize)| (e.0@, e.1))
    }

    /// Well-formedness of the trampoline cache against a store: keys are
    /// distinct normalized signatures, and every entry points at a function
    /// definition with that exact signature which is its own trampoline.
    pub open spec fn cache_wf(st: ModuleTypesView, cache: Seq<(WasmFuncTypeView, usize)>) -> bool {
        &&& forall|k: int, l: int|
            0 <= k < l < cache.len() ==> (#[trigger] cache[k]).0 != (#[trigger] cache[l]).0
        &&& forall|k: int|
            0 <= k < cache.len() ==> {
                &&& (#[trigger] cache[k]).1 < st.wasm_types.len()
                &&& st.wasm_types[cache[k].1 as int] is Func
                &&& st.wasm_types[cache[k].1 as int].func_sig() == cache[k].0
                &&& trampoline_func_type(cache[k].0) == cache[k].0
                &&& st.trampoline_types[cache[k].1 as int] == Some(cache[k].1)
            }
    }

    /// Well-formedness of the trampoline back-pointers: a set pointer leads
    /// from a function definition to a cached definition of its normalized
    /// signature, and that definition is its own trampoline.
    pub open spec fn pointers_wf(
        st: ModuleTypesView,
        cache: Seq<(WasmFuncTypeView, usize)>,
    ) -> bool {
        forall|t: int|
            0 <= t < st.trampoline_types.len() && (#[trigger] st.trampoline_types[t]) is Some
                ==> {
                let j = st.trampoline_types[t]->Some_0;
                &&& st.wasm_types[t] is Func
                &&& j < st.wasm_types.len()
                &&& st.wasm_types[j as int] is Func
                &&& st.wasm_types[j as int].func_sig() == trampoline_func_type(
                    st.wasm_types[t].func_sig(),
                )
                &&& st.trampoline_types[j as int] == Some(j)
                &&& exists|k: int|
                    0 <= k < cache.len() && #[trigger] cache[k] == (
                    trampoline_func_type(st.wasm_types[t].func_sig()),
                    j,
                    )
            }
    }

    /// Every function definition inside a closed group has its trampoline
    /// back-pointer set, except possibly those in the window `[lo, hi)` (the
    /// tail of a group whose trampoline post-pass is still running).
    pub open spec fn complete_except(st: ModuleTypesView, lo: int, hi: int) -> bool {
        forall|g: int, t: int|
            0 <= g < st.rec_groups.len() && (#[trigger] st.rec_groups[g]).start <= t
                < st.rec_groups[g].end && !(lo <= t < hi) && st.wasm_types[t] is Func
                ==> (#[trigger] st.trampoline_types[t]) is Some
    }

    /// The deduplication tables are faithful: every key of the type map `w`
    /// is a valid source-side type id, and every group recorded in `seen` has
    /// a closed range of the right length onto which `w` sends its members in
    /// order.
    pub open spec fn tables_wf(
        s: ValidatorTypesView,
        st: ModuleTypesView,
        w: Map<usize, usize>,
        seen: Map<usize, usize>,
    ) -> bool {
        &&& forall|id: usize| #[trigger] w.contains_key(id) ==> id < s.bodies.len()
        &&& forall|gid: usize|
            #[trigger] seen.contains_key(gid) ==> {
                let rg = seen[gid];
                &&& gid < s.groups.len()
                &&& rg < st.rec_groups.len()
                &&& st.rec_groups[rg as int].end - st.rec_groups[rg as int].start
                    == s.groups[gid as int].len()
                &&& forall|i: int|
                    0 <= i < s.groups[gid as int].len() ==> {
                        &&& w.contains_key(#[trigger] s.groups[gid as int][i])
                        &&& w[s.groups[gid as int][i]] == st.rec_groups[rg as int].start + i
                    }
            }
    }

    /// The builder's invariant at its public boundary: the bound session and
    /// the store are well formed, no group definition is in flight, and the
    /// deduplication tables are faithful to the store.
    pub open spec fn wf(&self) -> bool {
        &&& self.session@.wf()
        &&& self.validator_id == self.session@.id
        &&& self.types@.wf()
        &&& self.defining_rec_group is None
        &&& Self::tables_wf(
            self.session@,
            self.types@,
            self.wasmparser_to_wasmtime@,
            self.already_seen@,
        )
        &&& Self::cache_wf(self.types@, self.cache())
        &&& Self::pointers_wf(self.types@, self.cache())
        &&& Self::complete_except(self.types@, 0, 0)
    }

    /// Construct a new builder bound to the given validator session.
    pub fn new(validator: &ValidatorTypes) -> (r: ModuleTypesBuilder)
        requires
            validator@.wf(),
        ensures
            r.wf(),
            r.session@ == validator@,
            r.validator_id == validator@.id,
            r.types@.wasm_types == Seq::<crate::types::WasmCompositeTypeView>::empty(),
            r.types@.rec_groups == Seq::<RecGroupRange>::empty(),
            r.already_seen@ == Map::<usize, usize>::empty(),
            r.wasmparser_to_wasmtime@ == Map::<usize, usize>::empty(),
            r.cache() == Seq::<(WasmFuncTypeView, usize)>::empty(),
    {
        let r = ModuleTypesBuilder {
            validator_id: validator.id(),
            types: ModuleTypes::default(),
            trampoline_types: Vec::new(),
            wasmparser_to_wasmtime: IdMap::new(),
            already_seen: IdMap::new(),
            defining_rec_group: None,
            session: Ghost(validator@),
        };
        proof {
            assert(r.cache() =~= Seq::<(WasmFuncTypeView, usize)>::empty());
        }
        r
    }

    /// The id of the validator session this builder is bound to.
    pub fn validator_id(&self) -> (r: u64)
        ensures
            r == self.validator_id,
    {
        self.validator_id
    }

    /// Returns the finished [`ModuleTypes`] of this builder.
    pub fn finish(self) -> (r: ModuleTypes)
        ensures
            r == self.types,
    {
        self.types
    }

    /// The canonical type indices within an already-closed recursion group,
    /// in declaration order.
    pub fn rec_group_elements(&self, rec_group: usize) -> (r: Vec<usize>)
        requires
            self.types@.wf(),
            rec_group < self.types@.rec_groups.len(),
        ensures
            r@.len() == self.types@.rec_groups[rec_group as int].end - self.types@.rec_groups[
                rec_group as int
            ].start,
            forall|i: int|
                0 <= i < r@.len() ==> r@[i] == self.types@.rec_groups[rec_group as int].start + i,
    {
        self.types.rec_group_elements(rec_group)
    }

    /// All canonical type definitions so far; a definition's position is its
    /// canonical type index.
    pub fn wasm_types(&self) -> (r: &Vec<crate::types::WasmSubType>)
        ensures
            r@.len() == self.types@.wasm_types.len(),
            forall|i: int| 0 <= i < r@.len() ==> r@[i]@ == self.types@.wasm_types[i],
    {
        self.types.wasm_types()
    }

    /// The definition at a canonical type index.
    pub fn index(&self, ty: usize) -> (r: &crate::types::WasmSubType)
        requires
            ty < self.types@.wasm_types.len(),
        ensures
            r@ == self.types@.wasm_types[ty as int],
    {
        self.types.index(ty)
    }

    /// Every `(function type, trampoline type)` index pair recorded so far.
    pub fn trampoline_types(&self) -> (r: Vec<(usize, usize)>)
        ensures
            r@ == crate::module_types::trampoline_pairs(self.types@.trampoline_types),
    {
        self.types.trampoline_types()
    }

    /// The trampoline type of the given function-shaped canonical type.
    pub fn trampoline_type(&self, ty: usize) -> (r: usize)
        requires
            ty < self.types@.trampoline_types.len(),
            self.types@.trampoline_types[ty as int] is Some,
        ensures
            Some(r) == self.types@.trampoline_types[ty as int],
    {
        self.types.trampoline_type(ty)
    }

    /// Look up the trampoline cache entry for a normalized signature.
    fn find_trampoline(&self, f: &WasmFuncType) -> (r: Option<usize>)
        ensures
            match r {
                Some(j) => exists|k: int|
                    0 <= k < self.cache().len() && #[trigger] self.cache()[k] == (f@, j),
                None => forall|k: int|
                    0 <= k < self.cache().len() ==> (#[trigger] self.cache()[k]).0 != f@,
            },
    {
        let n = self.trampoline_types.len();
        for i in 0..n
            invariant
                n == self.trampoline_types.len(),
                forall|k: int| 0 <= k < i ==> (#[trigger] self.cache()[k]).0 != f@,
        {
            let entry_matches = crate::types::func_types_equal(&self.trampoline_types[i].0, f);
            if entry_matches {
                let j = self.trampoline_types[i].1;
                proof {
                    assert(self.cache()[i as int] == (f@, j));
                }
                return Some(j);
            }
            proof {
                assert((self.cache()[i as int]).0 == self.trampoline_types@[i as int].0@);
            }
        }
        None
    }

    /// The conversion context of a group about to be reserved: the store as
    /// it stands, the type map extended with the group's reservations, and
    /// the reserved block starting at the store's current end.
    pub open spec fn group_ctx(&self, rec_group_id: usize, module: Seq<usize>) -> ConvertContext {
        ConvertContext {
            store0: self.types@.wasm_types,
            type_map: reserve_map(
                self.wasmparser_to_wasmtime@,
                self.session@.groups[rec_group_id as int],
                self.types@.wasm_types.len() as usize,
            ),
            session: self.session@,
            rec_group_id: rec_group_id,
            start: self.types@.wasm_types.len() as usize,
            module: module,
        }
    }

    /// Reserves space for `amt` more type signatures.
    pub fn reserve_wasm_signatures(&mut self, amt: usize)
        ensures
            final(self).types@ == old(self).types@,
            final(self).trampoline_types == old(self).trampoline_types,
            final(self).wasmparser_to_wasmtime@ == old(self).wasmparser_to_wasmtime@,
            final(self).already_seen@ == old(self).already_seen@,
            final(self).defining_rec_group == old(self).defining_rec_group,
            final(self).session == old(self).session,
            final(self).validator_id == old(self).validator_id,
            old(self).wf() ==> final(self).wf(),
    {
        vec_reserve(&mut self.types.wasm_types, amt);
        vec_reserve(&mut self.wasmparser_to_wasmtime.entries, amt);
        vec_reserve(&mut self.already_seen.entries, amt);
        proof {
            assert(self.types@ =~= old(self).types@);
            assert(self.cache() =~= old(self).cache());
        }
    }

    /// Start defining a recursion group: reserve the next contiguous block of
    /// canonical type indices for its members and bind each member id to its
    /// reserved index, before any body is converted.
    fn start_rec_group(&mut self, validator_types: &ValidatorTypes, rec_group_id: usize)
        requires
            old(self).session@.wf(),
            old(self).defining_rec_group is None,
            validator_types@ == old(self).session@,
            rec_group_id < old(self).session@.groups.len(),
            old(self).types@.wasm_types.len() + old(self).session@.groups[rec_group_id as int].len()
                <= usize::MAX,
        ensures
            final(self).types == old(self).types,
            final(self).trampoline_types == old(self).trampoline_types,
            final(self).already_seen == old(self).already_seen,
            final(self).session == old(self).session,
            final(self).validator_id == old(self).validator_id,
            final(self).wasmparser_to_wasmtime@ == reserve_map(
                old(self).wasmparser_to_wasmtime@,
                old(self).session@.groups[rec_group_id as int],
                old(self).types@.wasm_types.len() as usize,
            ),
            final(self).defining_rec_group is Some,
            final(self).defining_rec_group->Some_0.rec_group_index == old(
                self,
            ).types@.rec_groups.len(),
            final(self).defining_rec_group->Some_0.start == old(self).types@.wasm_types.len(),
            final(self).defining_rec_group->Some_0.end == old(self).types@.wasm_types.len() + old(
                self,
            ).session@.groups[rec_group_id as int].len(),
    {
        let ghost members = self.session@.groups[rec_group_id as int];
        let ghost w0 = self.wasmparser_to_wasmtime@;
        let elems = validator_types.rec_group_elements(rec_group_id);
        let len = elems.len();
        let start = self.types.len_types();
        for i in 0..len
            invariant
                len == members.len(),
                elems@ == members,
                start + len <= usize::MAX,
                start == old(self).types@.wasm_types.len(),
                self.types == old(self).types,
                self.trampoline_types == old(self).trampoline_types,
                self.already_seen == old(self).already_seen,
                self.session == old(self).session,
                self.validator_id == old(self).validator_id,
                self.defining_rec_group == old(self).defining_rec_group,
                old(self).session@.wf(),
                forall|k: int, l: int| 0 <= k < l < len ==> members[k] != members[l],
                forall|j: int|
                    0 <= j < i ==> {
                        &&& self.wasmparser_to_wasmtime@.contains_key(#[trigger] members[j])
                        &&& self.wasmparser_to_wasmtime@[members[j]] == start + j
                    },
                forall|id: usize|
                    #![trigger w0.contains_key(id)]
                    #![trigger self.wasmparser_to_wasmtime@.contains_key(id)]
                    !(exists|j: int| 0 <= j < i && members[j] == id) ==> {
                        &&& self.wasmparser_to_wasmtime@.contains_key(id) == w0.contains_key(id)
                        &&& (w0.contains_key(id) ==> self.wasmparser_to_wasmtime@[id] == w0[id])
                    },
        {
            let interned = start + i;
            self.wasmparser_to_wasmtime.insert(elems[i], interned);
            proof {
                assert forall|id: usize|
                    !(exists|j: int| 0 <= j < i + 1 && members[j] == id) implies {
                    &&& self.wasmparser_to_wasmtime@.contains_key(id) == w0.contains_key(id)
                    &&& (w0.contains_key(id) ==> self.wasmparser_to_wasmtime@[id] == w0[id])
                } by {
                    if members[i as int] == id {
                        assert(0 <= i < i + 1 && members[i as int] == id);
                        assert(exists|j: int| 0 <= j < i + 1 && members[j] == id);
                    }
                    assert(!(exists|j: int| 0 <= j < i && members[j] == id)) by {
                        if exists|j: int| 0 <= j < i && members[j] == id {
                            let j = choose|j: int| 0 <= j < i && members[j] == id;
                            assert(0 <= j < i + 1 && members[j] == id);
                        }
                    }
                    assert(w0.contains_key(id) == w0.contains_key(id));
                }
            }
        }
        proof {
            let rm = reserve_map(w0, members, start);
            assert forall|id: usize|
                self.wasmparser_to_wasmtime@.contains_key(id) == rm.contains_key(id) && (
                rm.contains_key(id) ==> self.wasmparser_to_wasmtime@[id] == rm[id]) by {
                if is_member(members, id) {
                    let p = member_position(members, id);
                    assert(0 <= p < members.len() && members[p] == id);
                    assert(self.wasmparser_to_wasmtime@[members[p]] == start + p);
                } else {
                    assert(!(exists|j: int| 0 <= j < len && members[j] == id));
                }
            }
            assert(self.wasmparser_to_wasmtime@ =~= rm);
        }
        let end = start + len;
        let rec_group_index = self.types.next_rec_group();
        self.defining_rec_group = Some(RecGroupStart { rec_group_index, start, end });
    }

    /// Append one converted member definition while a recursion group is
    /// being defined; it lands exactly at its pre-reserved index.
    fn wasm_sub_type_in_rec_group(&mut self, ty: crate::types::WasmSubType) -> (r: usize)
        requires
            old(self).defining_rec_group is Some,
        ensures
            r == old(self).types@.wasm_types.len(),
            final(self).types@.wasm_types == old(self).types@.wasm_types.push(ty@),
            final(self).types@.trampoline_types == old(self).types@.trampoline_types.push(None),
            final(self).types@.rec_groups == old(self).types@.rec_groups,
            final(self).trampoline_types == old(self).trampoline_types,
            final(self).wasmparser_to_wasmtime == old(self).wasmparser_to_wasmtime,
            final(self).already_seen == old(self).already_seen,
            final(self).session == old(self).session,
            final(self).validator_id == old(self).validator_id,
            final(self).defining_rec_group == old(self).defining_rec_group,
    {
        self.types.push(ty)
    }

    /// Finish defining a recursion group: record its range, publish it in the
    /// group-deduplication table, and return its canonical group index.
    fn end_rec_group(&mut self, rec_group_id: usize) -> (r: usize)
        requires
            old(self).defining_rec_group is Some,
            ({
                let res = old(self).defining_rec_group->Some_0;
                &&& res.start <= res.end
                &&& res.end == old(self).types@.wasm_types.len()
                &&& res.rec_group_index == old(self).types@.rec_groups.len()
            }),
        ensures
            ({
                let res = old(self).defining_rec_group->Some_0;
                &&& r == res.rec_group_index
                &&& final(self).types@.wasm_types == old(self).types@.wasm_types
                &&& final(self).types@.trampoline_types == old(self).types@.trampoline_types
                &&& final(self).types@.rec_groups == old(self).types@.rec_groups.push(
                    RecGroupRange { start: res.start, end: res.end },
                )
                &&& final(self).already_seen@ == old(self).already_seen@.insert(
                    rec_group_id,
                    res.rec_group_index,
                )
                &&& final(self).trampoline_types == old(self).trampoline_types
                &&& final(self).wasmparser_to_wasmtime == old(self).wasmparser_to_wasmtime
                &&& final(self).session == old(self).session
                &&& final(self).validator_id == old(self).validator_id
                &&& final(self).defining_rec_group is None
            }),
    {
        let reservation = self.defining_rec_group.unwrap();
        self.defining_rec_group = None;
        let idx = self.types.push_rec_group(reservation.start, reservation.end);
        self.already_seen.insert(rec_group_id, idx);
        idx
    }

    /// Get or create the trampoline type for the given function-shaped
    /// definition, and set that definition's trampoline back-pointer. A
    /// cached normalized signature shares its definition; a signature that is
    /// its own normal form reuses its definition and index; otherwise the
    /// normalized signature is interned as a fresh one-member group that is
    /// its own trampoline.
    fn intern_trampoline_type(
        &mut self,
        for_func_ty: usize,
        Ghost(lo): Ghost<int>,
        Ghost(hi): Ghost<int>,
    )
        requires
            old(self).types@.wf(),
            Self::cache_wf(old(self).types@, old(self).cache()),
            Self::pointers_wf(old(self).types@, old(self).cache()),
            Self::complete_except(old(self).types@, lo, hi),
            for_func_ty < old(self).types@.wasm_types.len(),
            old(self).types@.wasm_types[for_func_ty as int] is Func,
            old(self).types@.trampoline_types[for_func_ty as int] is None,
        ensures
            final(self).types@.wf(),
            Self::cache_wf(final(self).types@, final(self).cache()),
            Self::pointers_wf(final(self).types@, final(self).cache()),
            Self::complete_except(final(self).types@, lo, hi),
            final(self).types@.trampoline_types[for_func_ty as int] is Some,
            final(self).types@.wasm_types.len() >= old(self).types@.wasm_types.len(),
            final(self).types@.rec_groups.len() >= old(self).types@.rec_groups.len(),
            final(self).types@.wasm_types.take(old(self).types@.wasm_types.len() as int)
                == old(self).types@.wasm_types,
            final(self).types@.rec_groups.take(old(self).types@.rec_groups.len() as int)
                == old(self).types@.rec_groups,
            forall|t: int|
                0 <= t < old(self).types@.wasm_types.len() && t != for_func_ty
                    ==> final(self).types@.trampoline_types[t]
                    == old(self).types@.trampoline_types[t],
            final(self).wasmparser_to_wasmtime == old(self).wasmparser_to_wasmtime,
            final(self).already_seen == old(self).already_seen,
            final(self).session == old(self).session,
            final(self).validator_id == old(self).validator_id,
            final(self).defining_rec_group == old(self).defining_rec_group,
    {
        let ghost st0 = self.types@;
        let ghost cache0 = self.cache();
        let ghost fsig = st0.wasm_types[for_func_ty as int].func_sig();
        proof {
            assert(self.types.wasm_types@[for_func_ty as int]@ == st0.wasm_types[
                for_func_ty as int
            ]);
        }
        let tt = match &self.types.wasm_types[for_func_ty].composite_type {
            WasmCompositeType::Func(f) => f.trampoline_type(),
            _ => vstd::pervasive::unreached(),
        };
        let (key, self_normal): (WasmFuncType, bool) = match tt {
            TrampolineType::Unchanged => {
                let cloned = match &self.types.wasm_types[for_func_ty].composite_type {
                    WasmCompositeType::Func(f) => clone_func_type(f),
                    _ => vstd::pervasive::unreached(),
                };
                (cloned, true)
            },
            TrampolineType::Changed(g) => (g, false),
        };
        proof {
            assert(key@ == trampoline_func_type(fsig));
        }
        match self.find_trampoline(&key) {
            Some(idx) => {
                proof {
                    let k = choose|k: int|
                        0 <= k < cache0.len() && #[trigger] cache0[k] == (key@, idx);
                    assert(st0.trampoline_types[idx as int] == Some(idx));
                    assert(idx != for_func_ty);
                }
                self.types.set_trampoline_type(for_func_ty, idx);
                proof {
                    assert(self.cache() =~= cache0);
                    lemma_trampoline_intern_shared(st0, self.types@, cache0, for_func_ty, idx, lo, hi);
                    assert(self.types@.wasm_types.take(st0.wasm_types.len() as int)
                        =~= st0.wasm_types);
                    assert(self.types@.rec_groups.take(st0.rec_groups.len() as int)
                        =~= st0.rec_groups);
                }
            },
            None => {
                if self_normal {
                    self.trampoline_types.push((key, for_func_ty));
                    proof {
                        assert(self.cache() =~= cache0.push((fsig, for_func_ty)));
                    }
                    self.types.set_trampoline_type(for_func_ty, for_func_ty);
                    proof {
                        lemma_trampoline_intern_self(st0, self.types@, cache0, self.cache(), for_func_ty, lo, hi);
                        assert(self.types@.wasm_types.take(st0.wasm_types.len() as int)
                            =~= st0.wasm_types);
                        assert(self.types@.rec_groups.take(st0.rec_groups.len() as int)
                            =~= st0.rec_groups);
                    }
                } else {
                    let key2 = clone_func_type(&key);
                    let idx = self.types.push(
                        WasmSubType { composite_type: WasmCompositeType::Func(key2) },
                    );
                    self.types.set_trampoline_type(idx, idx);
                    let next = self.types.next_ty();
                    self.types.push_rec_group(idx, next);
                    self.trampoline_types.push((key, idx));
                    self.types.set_trampoline_type(for_func_ty, idx);
                    proof {
                        assert(self.cache() =~= cache0.push((trampoline_func_type(fsig), idx)));
                        lemma_trampoline_intern_fresh(st0, self.types@, cache0, self.cache(), for_func_ty, idx, lo, hi);
                        assert(self.types@.wasm_types.take(st0.wasm_types.len() as int)
                            =~= st0.wasm_types);
                        assert(self.types@.rec_groups.take(st0.rec_groups.len() as int)
                            =~= st0.rec_groups);
                    }
                }
            },
        }
    }

    /// Define a recursion group that has not been interned yet: reserve its
    /// block, convert every member in declaration order, close the group, and
    /// give every function-shaped member a trampoline type.
    #[verifier::rlimit(60)]
    fn define_new_rec_group(
        &mut self,
        module: &Module,
        validator_types: &ValidatorTypes,
        rec_group_id: usize,
    ) -> (r: Result<usize, TypesError>)
        requires
            old(self).wf(),
            validator_types@ == old(self).session@,
            rec_group_id < old(self).session@.groups.len(),
            !old(self).already_seen@.contains_key(rec_group_id),
            old(self).types@.wasm_types.len() + old(self).session@.groups[rec_group_id as int].len()
                <= usize::MAX,
            forall|m: int|
                0 <= m < module.types@.len() ==> (#[trigger] module.types@[m]) < old(
                    self,
                ).types@.wasm_types.len() + old(self).session@.groups[rec_group_id as int].len(),
            group_refs_ok(old(self).group_ctx(rec_group_id, module.types@)),
        ensures
            final(self).wf(),
            final(self).session == old(self).session,
            final(self).validator_id == old(self).validator_id,
            final(self).types@.wasm_types.take(old(self).types@.wasm_types.len() as int) == old(
                self,
            ).types@.wasm_types,
            final(self).types@.rec_groups.take(old(self).types@.rec_groups.len() as int) == old(
                self,
            ).types@.rec_groups,
            forall|t: int|
                0 <= t < old(self).types@.wasm_types.len()
                    ==> final(self).types@.trampoline_types[t]
                    == old(self).types@.trampoline_types[t],
            ({
                let ctx = old(self).group_ctx(rec_group_id, module.types@);
                let n = ctx.members().len() as int;
                match r {
                    Ok(rg) => {
                        &&& group_convert(ctx, n) is Ok
                        &&& rg == old(self).types@.rec_groups.len()
                        &&& final(self).already_seen@ == old(self).already_seen@.insert(
                            rec_group_id,
                            rg,
                        )
                        &&& rg < final(self).types@.rec_groups.len()
                        &&& final(self).types@.rec_groups[rg as int] == RecGroupRange {
                            start: ctx.start,
                            end: (ctx.start + n) as usize,
                        }
                        &&& final(self).types@.wasm_types.len() >= ctx.start + n
                        &&& forall|i: int|
                            0 <= i < n ==> final(self).types@.wasm_types[ctx.start + i]
                                == group_convert(ctx, n)->Ok_0[i]
                    },
                    Err(e) => {
                        &&& group_convert(ctx, n) == Err::<Seq<WasmCompositeTypeView>, TypesError>(
                            e,
                        )
                        &&& final(self).already_seen@ == old(self).already_seen@
                        &&& final(self).types@.rec_groups == old(self).types@.rec_groups
                    },
                }
            }),
    {
        let ghost ctx = old(self).group_ctx(rec_group_id, module.types@);
        let ghost s = old(self).session@;
        let ghost members = ctx.members();
        proof {
            lemma_reserve_map_members(old(self).wasmparser_to_wasmtime@, members, ctx.start);
            lemma_tables_wf_after_reserve(
                s,
                old(self).types@,
                old(self).wasmparser_to_wasmtime@,
                old(self).already_seen@,
                rec_group_id,
                ctx.start,
            );
        }
        self.start_rec_group(validator_types, rec_group_id);
        let elems = validator_types.rec_group_elements(rec_group_id);
        let n = elems.len();
        let mut i: usize = 0;
        while i < n
            invariant
                old(self).wf(),
                validator_types@ == s,
                s == old(self).session@,
                rec_group_id < s.groups.len(),
                !old(self).already_seen@.contains_key(rec_group_id),
                ctx == old(self).group_ctx(rec_group_id, module.types@),
                members == ctx.members(),
                n == members.len(),
                elems@ == members,
                ctx.start == old(self).types@.wasm_types.len(),
                ctx.start + n <= usize::MAX,
                group_refs_ok(ctx),
                0 <= i <= n,
                self.session == old(self).session,
                self.validator_id == old(self).validator_id,
                self.trampoline_types == old(self).trampoline_types,
                self.already_seen == old(self).already_seen,
                self.wasmparser_to_wasmtime@ == ctx.type_map,
                self.defining_rec_group is Some,
                self.defining_rec_group->Some_0.rec_group_index == old(
                    self,
                ).types@.rec_groups.len(),
                self.defining_rec_group->Some_0.start == ctx.start,
                self.defining_rec_group->Some_0.end == ctx.start + n,
                self.types@.rec_groups == old(self).types@.rec_groups,
                self.types@.wasm_types.len() == ctx.start + i,
                self.types@.trampoline_types.len() == ctx.start + i,
                self.types@.wasm_types.take(ctx.start as int) == old(self).types@.wasm_types,
                forall|t: int|
                    0 <= t < ctx.start ==> self.types@.trampoline_types[t] == old(
                        self,
                    ).types@.trampoline_types[t],
                forall|t: int|
                    ctx.start <= t < ctx.start + i ==> self.types@.trampoline_types[t] is None,
                group_convert(ctx, i as int) is Ok,
                forall|j: int|
                    0 <= j < i ==> self.types@.wasm_types[ctx.start + j] == group_convert(
                        ctx,
                        i as int,
                    )->Ok_0[j],
            decreases n - i,
        {
            let id = elems[i];
            proof {
                assert(members[i as int] == id);
                assert(id < s.bodies.len());
                assert(body_ok(ctx, ctx.session.bodies[#[trigger] ctx.members()[i as int] as int]));
                assert(body_ok(ctx, s.bodies[id as int]));
            }
            let body = validator_types.body(id);
            let mut converter = WasmparserTypeConverter::new(self, module);
            converter.with_rec_group(validator_types, rec_group_id);
            proof {
                lemma_reserve_map_members(old(self).wasmparser_to_wasmtime@, members, ctx.start);
                assert(converter.ctx().store0 =~= ctx.store0);
                assert(converter.ctx() =~= ctx);
                assert(converter.filling_wf());
            }
            let converted = converter.convert_sub_type(body);
            match converted {
                Ok(wasm_ty) => {
                    let ghost d_pre = self.types@.wasm_types;
                    let ghost front = group_convert(ctx, i as int)->Ok_0;
                    proof {
                        lemma_group_convert_index(ctx, i as int);
                        assert(front.len() == i);
                        assert(spec_convert_sub(ctx, s.bodies[id as int]) == Ok::<
                            _,
                            TypesError,
                        >(wasm_ty@));
                        assert(group_convert(ctx, i + 1) == Ok::<_, TypesError>(
                            front.push(wasm_ty@),
                        ));
                    }
                    let _ = self.wasm_sub_type_in_rec_group(wasm_ty);
                    proof {
                        assert(self.types@.wasm_types == d_pre.push(wasm_ty@));
                        assert(self.types@.wasm_types.take(ctx.start as int) =~= old(
                            self,
                        ).types@.wasm_types);
                        assert forall|j2: int|
                            0 <= j2 < i + 1 implies #[trigger] self.types@.wasm_types[ctx.start
                            + j2] == group_convert(ctx, i + 1)->Ok_0[j2] by {
                            if j2 < i {
                                assert(d_pre[ctx.start + j2] == front[j2]);
                                assert(self.types@.wasm_types[ctx.start + j2] == d_pre[ctx.start
                                    + j2]);
                            } else {
                                assert(self.types@.wasm_types[ctx.start + j2] == wasm_ty@);
                            }
                        }
                    }
                    i = i + 1;
                },
                Err(e) => {
                    proof {
                        assert(spec_convert_sub(ctx, s.bodies[id as int]) == Err::<
                            WasmCompositeTypeView,
                            _,
                        >(e));
                        assert(group_convert(ctx, i + 1) == Err::<
                            Seq<WasmCompositeTypeView>,
                            TypesError,
                        >(e));
                        lemma_group_err_stable(ctx, i + 1, n as int);
                    }
                    self.defining_rec_group = None;
                    proof {
                        lemma_tables_wf_after_reserve(
                            s,
                            self.types@,
                            old(self).wasmparser_to_wasmtime@,
                            old(self).already_seen@,
                            rec_group_id,
                            ctx.start,
                        );
                        assert(Self::cache_wf(self.types@, self.cache())) by {
                            assert(self.cache() == old(self).cache());
                            assert forall|k: int| 0 <= k < self.cache().len() implies {
                                &&& (#[trigger] self.cache()[k]).1 < self.types@.wasm_types.len()
                                &&& self.types@.wasm_types[self.cache()[k].1 as int] is Func
                                &&& self.types@.wasm_types[self.cache()[k].1 as int].func_sig()
                                    == self.cache()[k].0
                                &&& trampoline_func_type(self.cache()[k].0) == self.cache()[k].0
                                &&& self.types@.trampoline_types[self.cache()[k].1 as int] == Some(
                                    self.cache()[k].1,
                                )
                            } by {
                                assert(self.cache()[k] == old(self).cache()[k]);
                                assert(self.cache()[k].1 < ctx.start);
                            }
                        }
                        assert(Self::pointers_wf(self.types@, self.cache())) by {
                            assert forall|t: int|
                                0 <= t < self.types@.trampoline_types.len() && (
                                #[trigger] self.types@.trampoline_types[t]) is Some implies {
                                let j = self.types@.trampoline_types[t]->Some_0;
                                &&& self.types@.wasm_types[t] is Func
                                &&& j < self.types@.wasm_types.len()
                                &&& self.types@.wasm_types[j as int] is Func
                                &&& self.types@.wasm_types[j as int].func_sig()
                                    == trampoline_func_type(self.types@.wasm_types[t].func_sig())
                                &&& self.types@.trampoline_types[j as int] == Some(j)
                                &&& exists|k: int|
                                    0 <= k < self.cache().len() && #[trigger] self.cache()[k] == (
                                    trampoline_func_type(self.types@.wasm_types[t].func_sig()),
                                    j,
                                    )
                            } by {
                                assert(t < ctx.start);
                                assert(old(self).types@.trampoline_types[t] is Some);
                                let j = old(self).types@.trampoline_types[t]->Some_0;
                                assert(j < ctx.start);
                            }
                        }
                        assert(Self::complete_except(self.types@, 0, 0)) by {
                            assert forall|g: int, t: int|
                                0 <= g < self.types@.rec_groups.len() && (
                                #[trigger] self.types@.rec_groups[g]).start <= t
                                    < self.types@.rec_groups[g].end && !(0 <= t < 0)
                                    && self.types@.wasm_types[t] is Func implies (
                            #[trigger] self.types@.trampoline_types[t]) is Some by {
                                assert(t < ctx.start);
                            }
                        }
                    }
                    return Err(e);
                },
            }
        }
        proof {
            assert(group_convert(ctx, n as int) is Ok);
            assert(self.defining_rec_group is Some);
            let res = self.defining_rec_group->Some_0;
            assert(res.start == ctx.start);
            assert(res.end == ctx.start + n);
            assert(self.types@.wasm_types.len() == ctx.start + n);
            assert(res.rec_group_index == self.types@.rec_groups.len());
        }
        let rec_group_index = self.end_rec_group(rec_group_id);
        let ghost st_close = self.types@;
        let ghost seen_close = self.already_seen@;
        proof {
            lemma_group_convert_index(ctx, n as int);
            lemma_tables_wf_after_reserve(
                s,
                old(self).types@,
                old(self).wasmparser_to_wasmtime@,
                old(self).already_seen@,
                rec_group_id,
                ctx.start,
            );
            assert(Self::tables_wf(s, st_close, ctx.type_map, seen_close)) by {
                lemma_reserve_map_members(old(self).wasmparser_to_wasmtime@, members, ctx.start);
                assert forall|gid: usize| #[trigger] seen_close.contains_key(gid) implies {
                    let rg = seen_close[gid];
                    &&& gid < s.groups.len()
                    &&& rg < st_close.rec_groups.len()
                    &&& st_close.rec_groups[rg as int].end - st_close.rec_groups[rg as int].start
                        == s.groups[gid as int].len()
                    &&& forall|i2: int|
                        0 <= i2 < s.groups[gid as int].len() ==> {
                            &&& ctx.type_map.contains_key(#[trigger] s.groups[gid as int][i2])
                            &&& ctx.type_map[s.groups[gid as int][i2]] == st_close.rec_groups[
                                rg as int
                            ].start + i2
                        }
                } by {
                    if gid != rec_group_id {
                        assert(old(self).already_seen@.contains_key(gid));
                        assert(seen_close[gid] == old(self).already_seen@[gid]);
                        let rg = seen_close[gid];
                        assert(Self::tables_wf(
                            s,
                            old(self).types@,
                            ctx.type_map,
                            old(self).already_seen@,
                        ));
                        assert(rg < old(self).types@.rec_groups.len());
                        assert(st_close.rec_groups[rg as int] == old(self).types@.rec_groups[
                            rg as int
                        ]);
                    } else {
                        assert(seen_close[gid] == rec_group_index);
                        assert(st_close.rec_groups[rec_group_index as int] == RecGroupRange {
                            start: ctx.start,
                            end: (ctx.start + n) as usize,
                        });
                    }
                }
            }
        }
        let elems2 = self.rec_group_elements(rec_group_index);
        let m = elems2.len();
        let mut j: usize = 0;
        while j < m
            invariant
                old(self).wf(),
                s == old(self).session@,
                ctx == old(self).group_ctx(rec_group_id, module.types@),
                members == ctx.members(),
                n == members.len(),
                m == n,
                ctx.start == old(self).types@.wasm_types.len(),
                ctx.start + n <= usize::MAX,
                0 <= j <= m,
                forall|k: int| 0 <= k < m ==> elems2@[k] == ctx.start + k,
                elems2@.len() == m,
                self.session == old(self).session,
                self.validator_id == old(self).validator_id,
                self.wasmparser_to_wasmtime@ == ctx.type_map,
                self.already_seen@ == seen_close,
                seen_close == old(self).already_seen@.insert(rec_group_id, rec_group_index),
                rec_group_index == old(self).types@.rec_groups.len(),
                self.defining_rec_group is None,
                st_close.wasm_types.len() == ctx.start + n,
                st_close.rec_groups == old(self).types@.rec_groups.push(
                    RecGroupRange { start: ctx.start, end: (ctx.start + n) as usize },
                ),
                st_close.wasm_types.take(ctx.start as int) == old(self).types@.wasm_types,
                group_convert(ctx, n as int) is Ok,
                forall|i2: int|
                    0 <= i2 < n ==> st_close.wasm_types[ctx.start + i2] == group_convert(
                        ctx,
                        n as int,
                    )->Ok_0[i2],
                self.types@.wf(),
                self.types@.wasm_types.len() >= ctx.start + n,
                self.types@.wasm_types.take((ctx.start + n) as int) == st_close.wasm_types,
                st_close.rec_groups.len() <= self.types@.rec_groups.len(),
                self.types@.rec_groups.take(st_close.rec_groups.len() as int)
                    == st_close.rec_groups,
                forall|t: int|
                    0 <= t < ctx.start ==> self.types@.trampoline_types[t] == old(
                        self,
                    ).types@.trampoline_types[t],
                forall|t: int|
                    ctx.start + j <= t < ctx.start + n
                        ==> self.types@.trampoline_types[t] is None,
                Self::tables_wf(
                    s,
                    self.types@,
                    self.wasmparser_to_wasmtime@,
                    self.already_seen@,
                ),
                Self::cache_wf(self.types@, self.cache()),
                Self::pointers_wf(self.types@, self.cache()),
                Self::complete_except(self.types@, ctx.start + j, ctx.start + n),
            decreases m - j,
        {
            let ty = elems2[j];
            let is_f = self.types.index(ty).is_func();
            let ghost st_before = self.types@;
            if is_f {
                self.intern_trampoline_type(
                    ty,
                    Ghost(ctx.start + j as int),
                    Ghost(ctx.start + n as int),
                );
            }
            proof {
                assert(self.types@.wasm_types.take((ctx.start + n) as int) =~= st_close.wasm_types)
                    by {
                    assert forall|t: int|
                        0 <= t < ctx.start + n implies self.types@.wasm_types[t] == st_close
                        .wasm_types[t] by {
                        assert(self.types@.wasm_types.take(st_before.wasm_types.len() as int)[t]
                            == st_before.wasm_types[t]);
                        assert(st_before.wasm_types.take((ctx.start + n) as int)[t] == st_close
                            .wasm_types[t]);
                    }
                }
                assert(self.types@.rec_groups.take(st_close.rec_groups.len() as int) =~= st_close
                    .rec_groups) by {
                    assert forall|g: int|
                        0 <= g < st_close.rec_groups.len() implies self.types@.rec_groups[g]
                        == st_close.rec_groups[g] by {
                        assert(self.types@.rec_groups.take(st_before.rec_groups.len() as int)[g]
                            == st_before.rec_groups[g]);
                        assert(st_before.rec_groups.take(st_close.rec_groups.len() as int)[g]
                            == st_close.rec_groups[g]);
                    }
                }
                assert(Self::tables_wf(
                    s,
                    self.types@,
                    self.wasmparser_to_wasmtime@,
                    self.already_seen@,
                )) by {
                    assert forall|gid: usize|
                        #[trigger] self.already_seen@.contains_key(gid) implies {
                        let rg = self.already_seen@[gid];
                        &&& gid < s.groups.len()
                        &&& rg < self.types@.rec_groups.len()
                        &&& self.types@.rec_groups[rg as int].end - self.types@.rec_groups[
                            rg as int
                        ].start == s.groups[gid as int].len()
                        &&& forall|i2: int|
                            0 <= i2 < s.groups[gid as int].len() ==> {
                                &&& self.wasmparser_to_wasmtime@.contains_key(
                                    #[trigger] s.groups[gid as int][i2],
                                )
                                &&& self.wasmparser_to_wasmtime@[s.groups[gid as int][i2]]
                                    == self.types@.rec_groups[rg as int].start + i2
                            }
                    } by {
                        let rg = self.already_seen@[gid];
                        assert(rg < st_close.rec_groups.len());
                        assert(self.types@.rec_groups[rg as int] == st_close.rec_groups[
                            rg as int
                        ]);
                    }
                }
                assert(Self::complete_except(self.types@, ctx.start + (j + 1), ctx.start + n))
                    by {
                    if is_f {
                        assert(self.types@.trampoline_types[ctx.start + j as int] is Some);
                    } else {
                        assert(!(st_before.wasm_types[ctx.start + j as int] is Func));
                    }
                }
            }
            j = j + 1;
        }
        proof {
            assert(Self::complete_except(self.types@, 0, 0)) by {
                assert(Self::complete_except(self.types@, ctx.start + n, ctx.start + n));
            }
            assert(self.types@.wasm_types.take(old(self).types@.wasm_types.len() as int)
                =~= old(self).types@.wasm_types) by {
                assert(self.types@.wasm_types.take((ctx.start + n) as int) == st_close.wasm_types);
                assert forall|t: int| 0 <= t < ctx.start implies self.types@.wasm_types[t] == old(
                    self,
                ).types@.wasm_types[t] by {
                    assert(self.types@.wasm_types.take((ctx.start + n) as int)[t] == st_close
                        .wasm_types[t]);
                    assert(st_close.wasm_types.take(ctx.start as int)[t] == old(
                        self,
                    ).types@.wasm_types[t]);
                }
            }
            assert(self.types@.rec_groups.take(old(self).types@.rec_groups.len() as int)
                =~= old(self).types@.rec_groups) by {
                assert forall|g: int|
                    0 <= g < old(self).types@.rec_groups.len() implies self.types@.rec_groups[g]
                    == old(self).types@.rec_groups[g] by {
                    assert(self.types@.rec_groups.take(st_close.rec_groups.len() as int)[g]
                        == st_close.rec_groups[g]);
                }
            }
            assert forall|i2: int| 0 <= i2 < n implies self.types@.wasm_types[ctx.start + i2]
                == group_convert(ctx, n as int)->Ok_0[i2] by {
                assert(self.types@.wasm_types.take((ctx.start + n) as int)[ctx.start + i2]
                    == st_close.wasm_types[ctx.start + i2]);
            }
            assert(self.types@.rec_groups[rec_group_index as int] == RecGroupRange {
                start: ctx.start,
                end: (ctx.start + n) as usize,
            }) by {
                assert(self.types@.rec_groups.take(st_close.rec_groups.len() as int)[
                    rec_group_index as int
                ] == st_close.rec_groups[rec_group_index as int]);
            }
        }
        Ok(rec_group_index)
    }

    /// Intern a recursion group and all of its types into this builder.
    ///
    /// If the recursion group has already been interned, it is reused and the
    /// builder is untouched. Otherwise the group's members are converted in
    /// declaration order into the next contiguous block of canonical type
    /// indices; if any member's body fails to convert, the error is returned
    /// and the group stays absent from the group-deduplication table, so a
    /// corrected retry is treated as brand-new.
    pub fn intern_rec_group(
        &mut self,
        module: &Module,
        validator_types: &ValidatorTypes,
        rec_group_id: usize,
    ) -> (r: Result<usize, TypesError>)
        requires
            old(self).wf(),
            validator_types@ == old(self).session@,
            rec_group_id < old(self).session@.groups.len(),
            old(self).types@.wasm_types.len() + old(self).session@.groups[rec_group_id as int].len()
                <= usize::MAX,
            forall|m: int|
                0 <= m < module.types@.len() ==> (#[trigger] module.types@[m]) < old(
                    self,
                ).types@.wasm_types.len() + old(self).session@.groups[rec_group_id as int].len(),
            group_refs_ok(old(self).group_ctx(rec_group_id, module.types@)),
        ensures
            final(self).wf(),
            final(self).session == old(self).session,
            final(self).validator_id == old(self).validator_id,
            final(self).types@.wasm_types.take(old(self).types@.wasm_types.len() as int) == old(
                self,
            ).types@.wasm_types,
            final(self).types@.rec_groups.take(old(self).types@.rec_groups.len() as int) == old(
                self,
            ).types@.rec_groups,
            old(self).already_seen@.contains_key(rec_group_id) ==> {
                &&& r == Ok::<usize, TypesError>(old(self).already_seen@[rec_group_id])
                &&& *final(self) == *old(self)
            },
            !old(self).already_seen@.contains_key(rec_group_id) ==> {
                let ctx = old(self).group_ctx(rec_group_id, module.types@);
                let n = ctx.members().len() as int;
                match r {
                    Ok(rg) => {
                        &&& group_convert(ctx, n) is Ok
                        &&& rg == old(self).types@.rec_groups.len()
                        &&& final(self).already_seen@ == old(self).already_seen@.insert(
                            rec_group_id,
                            rg,
                        )
                        &&& rg < final(self).types@.rec_groups.len()
                        &&& final(self).types@.rec_groups[rg as int] == RecGroupRange {
                            start: ctx.start,
                            end: (ctx.start + n) as usize,
                        }
                        &&& final(self).types@.wasm_types.len() >= ctx.start + n
                        &&& forall|i: int|
                            0 <= i < n ==> final(self).types@.wasm_types[ctx.start + i]
                                == group_convert(ctx, n)->Ok_0[i]
                    },
                    Err(e) => {
                        &&& group_convert(ctx, n) == Err::<Seq<WasmCompositeTypeView>, TypesError>(
                            e,
                        )
                        &&& final(self).already_seen@ == old(self).already_seen@
                        &&& final(self).types@.rec_groups == old(self).types@.rec_groups
                    },
                }
            },
    {
        match self.already_seen.get(rec_group_id) {
            Some(interned) => Ok(interned),
            None => self.define_new_rec_group(module, validator_types, rec_group_id),
        }
    }

    /// Intern a type into this builder and get its canonical type index.
    ///
    /// This interns not only the single given type but the type's entire
    /// recursion group; the returned index is the one reserved for this type
    /// inside its group's contiguous block.
    pub fn intern_type(
        &mut self,
        module: &Module,
        validator_types: &ValidatorTypes,
        id: usize,
    ) -> (r: Result<usize, TypesError>)
        requires
            old(self).wf(),
            validator_types@ == old(self).session@,
            id < old(self).session@.owner.len(),
            old(self).types@.wasm_types.len() + old(self).session@.groups[old(
                self,
            ).session@.owner[id as int] as int].len() <= usize::MAX,
            forall|m: int|
                0 <= m < module.types@.len() ==> (#[trigger] module.types@[m]) < old(
                    self,
                ).types@.wasm_types.len() + old(self).session@.groups[old(self).session@.owner[
                    id as int
                ] as int].len(),
            group_refs_ok(
                old(self).group_ctx(old(self).session@.owner[id as int], module.types@),
            ),
        ensures
            final(self).wf(),
            final(self).session == old(self).session,
            ({
                let gid = old(self).session@.owner[id as int];
                let ctx = old(self).group_ctx(gid, module.types@);
                match r {
                    Ok(idx) => {
                        &&& final(self).already_seen@.contains_key(gid)
                        &&& final(self).wasmparser_to_wasmtime@.contains_key(id)
                        &&& idx == final(self).wasmparser_to_wasmtime@[id]
                    },
                    Err(e) => {
                        &&& !old(self).already_seen@.contains_key(gid)
                        &&& group_convert(ctx, ctx.members().len() as int) == Err::<
                            Seq<WasmCompositeTypeView>,
                            TypesError,
                        >(e)
                        &&& final(self).already_seen@ == old(self).already_seen@
                    },
                }
            }),
    {
        let rec_group_id = validator_types.rec_group_id_of(id);
        let interned_rec_group = match self.intern_rec_group(
            module,
            validator_types,
            rec_group_id,
        ) {
            Ok(rg) => rg,
            Err(e) => {
                return Err(e);
            },
        };
        proof {
            assert(self.already_seen@.contains_key(rec_group_id));
            assert(self.session@.groups[rec_group_id as int].contains(id));
            let p = choose|p: int|
                0 <= p < self.session@.groups[rec_group_id as int].len()
                    && self.session@.groups[rec_group_id as int][p] == id;
            assert(self.wasmparser_to_wasmtime@.contains_key(
                self.session@.groups[rec_group_id as int][p],
            ));
        }
        let interned_type = self.wasmparser_to_wasmtime.get(id).unwrap();
        Ok(interned_type)
    }
}

/// Reserving a block for a group's members binds each member id to its
/// reserved index.
proof fn lemma_reserve_map_members(w0: Map<usize, usize>, members: Seq<usize>, start: usize)
    requires
        start + members.len() <= usize::MAX,
        forall|k: int, l: int| 0 <= k < l < members.len() ==> members[k] != members[l],
    ensures
        forall|j: int|
            0 <= j < members.len() ==> {
                &&& reserve_map(w0, members, start).contains_key(#[trigger] members[j])
                &&& reserve_map(w0, members, start)[members[j]] == start + j
            },
{
    assert forall|j: int| 0 <= j < members.len() implies {
        &&& reserve_map(w0, members, start).contains_key(#[trigger] members[j])
        &&& reserve_map(w0, members, start)[members[j]] == start + j
    } by {
        assert(members[j] == members[j] && 0 <= j < members.len());
        assert(is_member(members, members[j]));
        let p = member_position(members, members[j]);
        assert(0 <= p < members.len() && members[p] == members[j]);
        if p < j {
            assert(members[p] != members[j]);
        } else if j < p {
            assert(members[j] != members[p]);
        }
    }
}

/// Reserving a block for a not-yet-interned group leaves the deduplication
/// tables faithful: the reservation only touches ids owned by that group, and
/// no already-interned group shares a member with it.
proof fn lemma_tables_wf_after_reserve(
    s: ValidatorTypesView,
    st: ModuleTypesView,
    w0: Map<usize, usize>,
    seen: Map<usize, usize>,
    rec_group_id: usize,
    start: usize,
)
    requires
        s.wf(),
        ModuleTypesBuilder::tables_wf(s, st, w0, seen),
        rec_group_id < s.groups.len(),
        !seen.contains_key(rec_group_id),
    ensures
        ModuleTypesBuilder::tables_wf(
            s,
            st,
            reserve_map(w0, s.groups[rec_group_id as int], start),
            seen,
        ),
{
    let members = s.groups[rec_group_id as int];
    let w1 = reserve_map(w0, members, start);
    assert forall|id: usize| #[trigger] w1.contains_key(id) implies id < s.bodies.len() by {
        if is_member(members, id) {
            let p = member_position(members, id);
            assert(0 <= p < members.len() && members[p] == id);
        }
    }
    assert forall|gid: usize| #[trigger] seen.contains_key(gid) implies {
        let rg = seen[gid];
        &&& gid < s.groups.len()
        &&& rg < st.rec_groups.len()
        &&& st.rec_groups[rg as int].end - st.rec_groups[rg as int].start == s.groups[
            gid as int
        ].len()
        &&& forall|i: int|
            0 <= i < s.groups[gid as int].len() ==> {
                &&& w1.contains_key(#[trigger] s.groups[gid as int][i])
                &&& w1[s.groups[gid as int][i]] == st.rec_groups[rg as int].start + i
            }
    } by {
        assert forall|i: int| 0 <= i < s.groups[gid as int].len() implies {
            &&& w1.contains_key(#[trigger] s.groups[gid as int][i])
            &&& w1[s.groups[gid as int][i]] == st.rec_groups[seen[gid] as int].start + i
        } by {
            let m = s.groups[gid as int][i];
            assert(w0.contains_key(m));
            if is_member(members, m) {
                let p = member_position(members, m);
                assert(0 <= p < members.len() && members[p] == m);
                assert(s.owner[m as int] == rec_group_id);
                assert(s.owner[m as int] == gid);
                assert(false);
            }
        }
    }
}

/// Sharing a cached trampoline definition preserves the trampoline
/// invariants: setting `t`'s back-pointer to the cached `j` is sound because
/// the cache already certifies `j`.
proof fn lemma_trampoline_intern_shared(
    st0: ModuleTypesView,
    st1: ModuleTypesView,
    cache: Seq<(WasmFuncTypeView, usize)>,
    t: usize,
    j: usize,
    lo: int,
    hi: int,
)
    requires
        st0.wf(),
        ModuleTypesBuilder::cache_wf(st0, cache),
        ModuleTypesBuilder::pointers_wf(st0, cache),
        ModuleTypesBuilder::complete_except(st0, lo, hi),
        t < st0.wasm_types.len(),
        st0.wasm_types[t as int] is Func,
        st0.trampoline_types[t as int] is None,
        exists|k: int|
            0 <= k < cache.len() && #[trigger] cache[k] == (
            trampoline_func_type(st0.wasm_types[t as int].func_sig()),
            j,
            ),
        st1.wasm_types == st0.wasm_types,
        st1.rec_groups == st0.rec_groups,
        st1.trampoline_types == st0.trampoline_types.update(t as int, Some(j)),
    ensures
        st1.wf(),
        ModuleTypesBuilder::cache_wf(st1, cache),
        ModuleTypesBuilder::pointers_wf(st1, cache),
        ModuleTypesBuilder::complete_except(st1, lo, hi),
{
    let k = choose|k: int|
        0 <= k < cache.len() && #[trigger] cache[k] == (
        trampoline_func_type(st0.wasm_types[t as int].func_sig()),
        j,
        );
    assert(st0.trampoline_types[j as int] == Some(j));
    assert(j != t);
    assert forall|u: int|
        0 <= u < st1.trampoline_types.len() && (#[trigger] st1.trampoline_types[u]) is Some implies {
        let v = st1.trampoline_types[u]->Some_0;
        &&& st1.wasm_types[u] is Func
        &&& v < st1.wasm_types.len()
        &&& st1.wasm_types[v as int] is Func
        &&& st1.wasm_types[v as int].func_sig() == trampoline_func_type(
            st1.wasm_types[u].func_sig(),
        )
        &&& st1.trampoline_types[v as int] == Some(v)
        &&& exists|k2: int|
            0 <= k2 < cache.len() && #[trigger] cache[k2] == (
            trampoline_func_type(st1.wasm_types[u].func_sig()),
            v,
            )
    } by {
        if u != t {
            let v = st1.trampoline_types[u]->Some_0;
            assert(st0.trampoline_types[u] is Some);
            assert(st0.trampoline_types[v as int] == Some(v));
            assert(v != t);
        }
    }
}

/// Caching a signature that is its own normal form, with its own definition
/// as trampoline, preserves the trampoline invariants.
proof fn lemma_trampoline_intern_self(
    st0: ModuleTypesView,
    st1: ModuleTypesView,
    cache0: Seq<(WasmFuncTypeView, usize)>,
    cache1: Seq<(WasmFuncTypeView, usize)>,
    t: usize,
    lo: int,
    hi: int,
)
    requires
        st0.wf(),
        ModuleTypesBuilder::cache_wf(st0, cache0),
        ModuleTypesBuilder::pointers_wf(st0, cache0),
        ModuleTypesBuilder::complete_except(st0, lo, hi),
        t < st0.wasm_types.len(),
        st0.wasm_types[t as int] is Func,
        st0.trampoline_types[t as int] is None,
        trampoline_func_type(st0.wasm_types[t as int].func_sig()) == st0.wasm_types[
            t as int
        ].func_sig(),
        forall|k: int|
            0 <= k < cache0.len() ==> (#[trigger] cache0[k]).0 != st0.wasm_types[
                t as int
            ].func_sig(),
        st1.wasm_types == st0.wasm_types,
        st1.rec_groups == st0.rec_groups,
        st1.trampoline_types == st0.trampoline_types.update(t as int, Some(t)),
        cache1 == cache0.push((st0.wasm_types[t as int].func_sig(), t)),
    ensures
        st1.wf(),
        ModuleTypesBuilder::cache_wf(st1, cache1),
        ModuleTypesBuilder::pointers_wf(st1, cache1),
        ModuleTypesBuilder::complete_except(st1, lo, hi),
{
    let sig = st0.wasm_types[t as int].func_sig();
    assert forall|u: int|
        0 <= u < st1.trampoline_types.len() && (#[trigger] st1.trampoline_types[u]) is Some implies {
        let v = st1.trampoline_types[u]->Some_0;
        &&& st1.wasm_types[u] is Func
        &&& v < st1.wasm_types.len()
        &&& st1.wasm_types[v as int] is Func
        &&& st1.wasm_types[v as int].func_sig() == trampoline_func_type(
            st1.wasm_types[u].func_sig(),
        )
        &&& st1.trampoline_types[v as int] == Some(v)
        &&& exists|k2: int|
            0 <= k2 < cache1.len() && #[trigger] cache1[k2] == (
            trampoline_func_type(st1.wasm_types[u].func_sig()),
            v,
            )
    } by {
        if u == t {
            assert(cache1[cache0.len() as int] == (trampoline_func_type(sig), t));
        } else {
            let v = st1.trampoline_types[u]->Some_0;
            assert(st0.trampoline_types[u] is Some);
            assert(st0.trampoline_types[v as int] == Some(v));
            assert(v != t);
            let k2 = choose|k2: int|
                0 <= k2 < cache0.len() && #[trigger] cache0[k2] == (
                trampoline_func_type(st0.wasm_types[u].func_sig()),
                v,
                );
            assert(cache1[k2] == (trampoline_func_type(st1.wasm_types[u].func_sig()), v));
        }
    }
    assert forall|k: int| 0 <= k < cache1.len() implies {
        &&& (#[trigger] cache1[k]).1 < st1.wasm_types.len()
        &&& st1.wasm_types[cache1[k].1 as int] is Func
        &&& st1.wasm_types[cache1[k].1 as int].func_sig() == cache1[k].0
        &&& trampoline_func_type(cache1[k].0) == cache1[k].0
        &&& st1.trampoline_types[cache1[k].1 as int] == Some(cache1[k].1)
    } by {
        if k < cache0.len() {
            assert(cache1[k] == cache0[k]);
            assert(cache0[k].1 != t);
        }
    }
}

/// Interning a distinct normalized signature as a fresh one-member group
/// that is its own trampoline preserves the trampoline invariants.
proof fn lemma_trampoline_intern_fresh(
    st0: ModuleTypesView,
    st1: ModuleTypesView,
    cache0: Seq<(WasmFuncTypeView, usize)>,
    cache1: Seq<(WasmFuncTypeView, usize)>,
    t: usize,
    idx: usize,
    lo: int,
    hi: int,
)
    requires
        st0.wf(),
        ModuleTypesBuilder::cache_wf(st0, cache0),
        ModuleTypesBuilder::pointers_wf(st0, cache0),
        ModuleTypesBuilder::complete_except(st0, lo, hi),
        t < st0.wasm_types.len(),
        st0.wasm_types[t as int] is Func,
        st0.trampoline_types[t as int] is None,
        forall|k: int|
            0 <= k < cache0.len() ==> (#[trigger] cache0[k]).0 != trampoline_func_type(
                st0.wasm_types[t as int].func_sig(),
            ),
        idx == st0.wasm_types.len(),
        idx + 1 <= usize::MAX,
        st1.wasm_types == st0.wasm_types.push(
            crate::types::WasmCompositeTypeView::Func(
                trampoline_func_type(st0.wasm_types[t as int].func_sig()),
            ),
        ),
        st1.rec_groups == st0.rec_groups.push(
            RecGroupRange { start: idx, end: (idx + 1) as usize },
        ),
        st1.trampoline_types == st0.trampoline_types.push(None).update(idx as int, Some(idx))
            .update(t as int, Some(idx)),
        cache1 == cache0.push((trampoline_func_type(st0.wasm_types[t as int].func_sig()), idx)),
    ensures
        st1.wf(),
        ModuleTypesBuilder::cache_wf(st1, cache1),
        ModuleTypesBuilder::pointers_wf(st1, cache1),
        ModuleTypesBuilder::complete_except(st1, lo, hi),
{
    let sig = st0.wasm_types[t as int].func_sig();
    lemma_trampoline_func_type_idempotent(sig);
    assert forall|u: int|
        0 <= u < st1.trampoline_types.len() && (#[trigger] st1.trampoline_types[u]) is Some implies {
        let v = st1.trampoline_types[u]->Some_0;
        &&& st1.wasm_types[u] is Func
        &&& v < st1.wasm_types.len()
        &&& st1.wasm_types[v as int] is Func
        &&& st1.wasm_types[v as int].func_sig() == trampoline_func_type(
            st1.wasm_types[u].func_sig(),
        )
        &&& st1.trampoline_types[v as int] == Some(v)
        &&& exists|k2: int|
            0 <= k2 < cache1.len() && #[trigger] cache1[k2] == (
            trampoline_func_type(st1.wasm_types[u].func_sig()),
            v,
            )
    } by {
        if u == t || u == idx {
            assert(cache1[cache0.len() as int] == (trampoline_func_type(sig), idx));
        } else {
            let v = st1.trampoline_types[u]->Some_0;
            assert(st0.trampoline_types[u] is Some);
            assert(st0.trampoline_types[v as int] == Some(v));
            assert(v != t);
            let k2 = choose|k2: int|
                0 <= k2 < cache0.len() && #[trigger] cache0[k2] == (
                trampoline_func_type(st0.wasm_types[u].func_sig()),
                v,
                );
            assert(cache1[k2] == (trampoline_func_type(st1.wasm_types[u].func_sig()), v));
        }
    }
    assert forall|k: int| 0 <= k < cache1.len() implies {
        &&& (#[trigger] cache1[k]).1 < st1.wasm_types.len()
        &&& st1.wasm_types[cache1[k].1 as int] is Func
        &&& st1.wasm_types[cache1[k].1 as int].func_sig() == cache1[k].0
        &&& trampoline_func_type(cache1[k].0) == cache1[k].0
        &&& st1.trampoline_types[cache1[k].1 as int] == Some(cache1[k].1)
    } by {
        if k < cache0.len() {
            assert(cache1[k] == cache0[k]);
            assert(cache0[k].1 != t);
            assert(cache0[k].1 != idx);
        }
    }
    assert forall|g: int, u: int|
        0 <= g < st1.rec_groups.len() && (#[trigger] st1.rec_groups[g]).start <= u
            < st1.rec_groups[g].end && !(lo <= u < hi) && st1.wasm_types[u] is Func implies (
    #[trigger] st1.trampoline_types[u]) is Some by {
        if g < st0.rec_groups.len() {
            assert(st1.rec_groups[g] == st0.rec_groups[g]);
            assert(u < st0.wasm_types.len());
            if u != t && u != idx {
                assert(st1.trampoline_types[u] == st0.trampoline_types[u]);
            }
        }
    }
}

/// Relies on Vec::try_reserve: whether or not the extra capacity could be
/// allocated, the vector's contents are unchanged.
#[verifier::external_body]
fn vec_reserve<T>(v: &mut Vec<T>, additional: usize)
    ensures
        final(v)@ == old(v)@,
{
    let _ = v.try_reserve(additional);
}

} // verus!
