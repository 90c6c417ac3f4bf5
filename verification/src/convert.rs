//! The reference resolver / converter: translates one source-side type body
//! into canonical form, resolving every type reference in it.
//!
//! Resolution is two-tier. A reference whose canonical index is already
//! filled in the store is classified from the stored definition. Otherwise it
//! must be a forward or self reference within the group currently being
//! defined, and it is classified from the source-side body via the active
//! group context. The conversion is specified by pure functions over a
//! [`ConvertContext`], and the executable converter is proved to match them.

use vstd::prelude::*;

use crate::module_types_builder::ModuleTypesBuilder;
use crate::module_types_builder::Module;
use crate::types::EngineOrModuleTypeIndex;
use crate::types::TypesError;
use crate::types::WasmCompositeType;
use crate::types::WasmCompositeTypeView;
use crate::types::WasmFieldType;
use crate::types::WasmFuncType;
use crate::types::WasmFuncTypeView;
use crate::types::WasmHeapType;
use crate::types::WasmRefType;
use crate::types::WasmArrayType;
use crate::types::WasmStructType;
use crate::types::WasmSubType;
use crate::types::WasmValType;
use crate::validator_types::SourceCompositeType;
use crate::validator_types::SourceCompositeTypeView;
use crate::validator_types::SourceFieldType;
use crate::validator_types::SourceHeapType;
use crate::validator_types::SourceSubType;
use crate::validator_types::SourceSubTypeView;
use crate::validator_types::SourceValType;
use crate::validator_types::UnpackedIndex;
use crate::validator_types::ValidatorTypes;
use crate::validator_types::ValidatorTypesView;

verus! {

/// Whether `id` is one of the member ids of the active group.
pub open spec fn is_member(members: Seq<usize>, id: usize) -> bool {
    exists|j: int| 0 <= j < members.len() && members[j] == id
}

/// The position of `id` in the active group's member list.
pub open spec fn member_position(members: Seq<usize>, id: usize) -> int {
    choose|j: int| 0 <= j < members.len() && members[j] == id
}

/// The type map after reserving the contiguous block starting at `start` for
/// the given members: each member is sent to its reserved index, every other
/// binding is untouched.
pub open spec fn reserve_map(
    w: Map<usize, usize>,
    members: Seq<usize>,
    start: usize,
) -> Map<usize, usize> {
    Map::new(
        |id: usize| w.contains_key(id) || is_member(members, id),
        |id: usize|
            if is_member(members, id) {
                (start + member_position(members, id)) as usize
            } else {
                w[id]
            },
    )
}

/// Everything the conversion of one group member depends on, fixed for the
/// whole group: the canonical store as it was when the group was reserved,
/// the type map including the group's reservations, the bound session, the
/// active group, its reserved block's start, and the module's type-index
/// table.
#[verifier::ext_equal]
pub ghost struct ConvertContext {
    pub store0: Seq<WasmCompositeTypeView>,
    pub type_map: Map<usize, usize>,
    pub session: ValidatorTypesView,
    pub rec_group_id: usize,
    pub start: usize,
    pub module: Seq<usize>,
}

impl ConvertContext {
    /// The active group's member ids, in declaration order.
    pub open spec fn members(self) -> Seq<usize> {
        self.session.groups[self.rec_group_id as int]
    }
}

/// The concrete heap type classifying a canonical definition.
pub open spec fn heap_for_canon(
    c: WasmCompositeTypeView,
    index: EngineOrModuleTypeIndex,
) -> WasmHeapType {
    match c {
        WasmCompositeTypeView::Array(_) => WasmHeapType::ConcreteArray(index),
        WasmCompositeTypeView::Func(_) => WasmHeapType::ConcreteFunc(index),
        WasmCompositeTypeView::Struct(_) => WasmHeapType::ConcreteStruct(index),
    }
}

/// The concrete heap type classifying a source-side definition.
pub open spec fn heap_for_source(
    c: SourceCompositeTypeView,
    index: EngineOrModuleTypeIndex,
) -> WasmHeapType {
    match c {
        SourceCompositeTypeView::Array(_) => WasmHeapType::ConcreteArray(index),
        SourceCompositeTypeView::Func(_) => WasmHeapType::ConcreteFunc(index),
        SourceCompositeTypeView::Struct(_) => WasmHeapType::ConcreteStruct(index),
    }
}

/// The canonical index a validator-native type id resolves to: a member of
/// the active group resolves into the reserved block, anything else through
/// the type map.
pub open spec fn spec_resolve_id(ctx: ConvertContext, id: usize) -> usize {
    if is_member(ctx.members(), id) {
        (ctx.start + member_position(ctx.members(), id)) as usize
    } else {
        ctx.type_map[id]
    }
}

/// The canonical heap type a concrete reference resolves to, classified from
/// the finished store when possible and from the active group's source
/// bodies otherwise.
pub open spec fn spec_lookup_heap(ctx: ConvertContext, index: UnpackedIndex) -> Result<
    WasmHeapType,
    TypesError,
> {
    match index {
        UnpackedIndex::Id(id) => {
            let interned = spec_resolve_id(ctx, id);
            let idx = EngineOrModuleTypeIndex::Module(interned);
            if interned < ctx.store0.len() {
                Ok(heap_for_canon(ctx.store0[interned as int], idx))
            } else {
                Ok(heap_for_source(ctx.session.bodies[id as int].composite_type, idx))
            }
        },
        UnpackedIndex::Module(m) => {
            if m >= ctx.module.len() {
                Err(TypesError::ModuleIndexOutOfBounds(m))
            } else {
                let interned = ctx.module[m as int];
                let idx = EngineOrModuleTypeIndex::Module(interned);
                if interned < ctx.store0.len() {
                    Ok(heap_for_canon(ctx.store0[interned as int], idx))
                } else {
                    let pos = interned - ctx.start;
                    let id = ctx.members()[pos as int];
                    Ok(heap_for_source(ctx.session.bodies[id as int].composite_type, idx))
                }
            }
        },
    }
}

/// The canonical form of a source-side heap type.
pub open spec fn spec_convert_heap(ctx: ConvertContext, h: SourceHeapType) -> Result<
    WasmHeapType,
    TypesError,
> {
    match h {
        SourceHeapType::Extern => Ok(WasmHeapType::Extern),
        SourceHeapType::Func => Ok(WasmHeapType::Func),
        SourceHeapType::Any => Ok(WasmHeapType::Any),
        SourceHeapType::Concrete(u) => spec_lookup_heap(ctx, u),
    }
}

/// The canonical form of a source-side value type.
pub open spec fn spec_convert_val(ctx: ConvertContext, v: SourceValType) -> Result<
    WasmValType,
    TypesError,
> {
    match v {
        SourceValType::I32 => Ok(WasmValType::I32),
        SourceValType::I64 => Ok(WasmValType::I64),
        SourceValType::Ref(r) => match spec_convert_heap(ctx, r.heap_type) {
            Ok(h) => Ok(WasmValType::Ref(WasmRefType { nullable: r.nullable, heap_type: h })),
            Err(e) => Err(e),
        },
    }
}

/// The canonical forms of a sequence of value types; the first failure wins.
pub open spec fn spec_convert_vals(ctx: ConvertContext, vs: Seq<SourceValType>) -> Result<
    Seq<WasmValType>,
    TypesError,
>
    decreases vs.len(),
{
    if vs.len() == 0 {
        Ok(Seq::empty())
    } else {
        match spec_convert_vals(ctx, vs.drop_last()) {
            Err(e) => Err(e),
            Ok(front) => match spec_convert_val(ctx, vs.last()) {
                Err(e) => Err(e),
                Ok(v) => Ok(front.push(v)),
            },
        }
    }
}

/// The canonical form of a source-side field type.
pub open spec fn spec_convert_field(ctx: ConvertContext, f: SourceFieldType) -> Result<
    WasmFieldType,
    TypesError,
> {
    match spec_convert_val(ctx, f.element_type) {
        Ok(v) => Ok(WasmFieldType { element_type: v, mutable: f.mutable }),
        Err(e) => Err(e),
    }
}

/// The canonical forms of a sequence of field types; the first failure wins.
pub open spec fn spec_convert_fields(ctx: ConvertContext, fs: Seq<SourceFieldType>) -> Result<
    Seq<WasmFieldType>,
    TypesError,
>
    decreases fs.len(),
{
    if fs.len() == 0 {
        Ok(Seq::empty())
    } else {
        match spec_convert_fields(ctx, fs.drop_last()) {
            Err(e) => Err(e),
            Ok(front) => match spec_convert_field(ctx, fs.last()) {
                Err(e) => Err(e),
                Ok(f) => Ok(front.push(f)),
            },
        }
    }
}

/// The canonical form of one source-side type definition: explicit subtyping
/// is rejected, otherwise the composite body is converted piecewise.
pub open spec fn spec_convert_sub(ctx: ConvertContext, b: SourceSubTypeView) -> Result<
    WasmCompositeTypeView,
    TypesError,
> {
    if !b.is_final || b.supertype is Some {
        Err(TypesError::UnsupportedSubtype)
    } else {
        match b.composite_type {
            SourceCompositeTypeView::Func(f) => match spec_convert_vals(ctx, f.params) {
                Err(e) => Err(e),
                Ok(ps) => match spec_convert_vals(ctx, f.results) {
                    Err(e) => Err(e),
                    Ok(rs) => Ok(
                        WasmCompositeTypeView::Func(WasmFuncTypeView { params: ps, results: rs }),
                    ),
                },
            },
            SourceCompositeTypeView::Array(a) => match spec_convert_field(ctx, a.0) {
                Err(e) => Err(e),
                Ok(f) => Ok(WasmCompositeTypeView::Array(WasmArrayType(f))),
            },
            SourceCompositeTypeView::Struct(fs) => match spec_convert_fields(ctx, fs) {
                Err(e) => Err(e),
                Ok(out) => Ok(WasmCompositeTypeView::Struct(out)),
            },
        }
    }
}

/// The canonical forms of the active group's first `k` members, in
/// declaration order; the first failure wins.
pub open spec fn group_convert(ctx: ConvertContext, k: int) -> Result<
    Seq<WasmCompositeTypeView>,
    TypesError,
>
    decreases k,
{
    if k <= 0 {
        Ok(Seq::empty())
    } else {
        match group_convert(ctx, k - 1) {
            Err(e) => Err(e),
            Ok(front) => match spec_convert_sub(
                ctx,
                ctx.session.bodies[ctx.members()[k - 1] as int],
            ) {
                Err(e) => Err(e),
                Ok(t) => Ok(front.push(t)),
            },
        }
    }
}

/// The reference inside a source-side heap type can be resolved without a
/// fatal fault: a validator-native id is a member of the active group or
/// already in the type map, and an in-range module-local index leads into the
/// finished store or into the active group's reserved block.
pub open spec fn heap_ok(ctx: ConvertContext, h: SourceHeapType) -> bool {
    match h {
        SourceHeapType::Concrete(UnpackedIndex::Id(id)) => {
            &&& id < ctx.session.bodies.len()
            &&& (is_member(ctx.members(), id) || (ctx.type_map.contains_key(id)
                && ctx.type_map[id] < ctx.store0.len()))
        },
        SourceHeapType::Concrete(UnpackedIndex::Module(m)) => m < ctx.module.len() ==> {
            ||| ctx.module[m as int] < ctx.store0.len()
            ||| (ctx.start <= ctx.module[m as int] < ctx.start + ctx.members().len())
        },
        _ => true,
    }
}

/// Every reference in a value type is resolvable.
pub open spec fn val_ok(ctx: ConvertContext, v: SourceValType) -> bool {
    match v {
        SourceValType::Ref(r) => heap_ok(ctx, r.heap_type),
        _ => true,
    }
}

/// Every reference in a type body is resolvable.
pub open spec fn body_ok(ctx: ConvertContext, b: SourceSubTypeView) -> bool {
    match b.composite_type {
        SourceCompositeTypeView::Func(f) => {
            &&& forall|i: int| 0 <= i < f.params.len() ==> val_ok(ctx, #[trigger] f.params[i])
            &&& forall|i: int| 0 <= i < f.results.len() ==> val_ok(ctx, #[trigger] f.results[i])
        },
        SourceCompositeTypeView::Array(a) => val_ok(ctx, a.0.element_type),
        SourceCompositeTypeView::Struct(fs) => forall|i: int|
            0 <= i < fs.len() ==> val_ok(ctx, (#[trigger] fs[i]).element_type),
    }
}

/// Every reference in every member body of the active group is resolvable.
pub open spec fn group_refs_ok(ctx: ConvertContext) -> bool {
    forall|i: int|
        0 <= i < ctx.members().len() ==> body_ok(
            ctx,
            ctx.session.bodies[#[trigger] ctx.members()[i] as int],
        )
}

/// Converting one more value type extends a successful prefix conversion or
/// surfaces that value's error.
pub proof fn lemma_vals_succ(ctx: ConvertContext, vs: Seq<SourceValType>, i: int)
    requires
        0 <= i < vs.len(),
    ensures
        spec_convert_vals(ctx, vs.take(i + 1)) == (match spec_convert_vals(ctx, vs.take(i)) {
            Err(e) => Err::<Seq<WasmValType>, TypesError>(e),
            Ok(front) => match spec_convert_val(ctx, vs[i]) {
                Err(e) => Err(e),
                Ok(v) => Ok(front.push(v)),
            },
        }),
{
    assert(vs.take(i + 1).drop_last() =~= vs.take(i));
    assert(vs.take(i + 1).last() == vs[i]);
}

/// Once a prefix of the value types fails to convert, the whole sequence
/// fails with that same error.
pub proof fn lemma_vals_err_stable(ctx: ConvertContext, vs: Seq<SourceValType>, i: int)
    requires
        0 <= i <= vs.len(),
        spec_convert_vals(ctx, vs.take(i)) is Err,
    ensures
        spec_convert_vals(ctx, vs) == spec_convert_vals(ctx, vs.take(i)),
    decreases vs.len() - i,
{
    if i == vs.len() {
        assert(vs.take(i) =~= vs);
    } else {
        lemma_vals_succ(ctx, vs, i);
        lemma_vals_err_stable(ctx, vs, i + 1);
    }
}

/// Converting one more field extends a successful prefix conversion or
/// surfaces that field's error.
pub proof fn lemma_fields_succ(ctx: ConvertContext, fs: Seq<SourceFieldType>, i: int)
    requires
        0 <= i < fs.len(),
    ensures
        spec_convert_fields(ctx, fs.take(i + 1)) == (match spec_convert_fields(ctx, fs.take(i)) {
            Err(e) => Err::<Seq<WasmFieldType>, TypesError>(e),
            Ok(front) => match spec_convert_field(ctx, fs[i]) {
                Err(e) => Err(e),
                Ok(f) => Ok(front.push(f)),
            },
        }),
{
    assert(fs.take(i + 1).drop_last() =~= fs.take(i));
    assert(fs.take(i + 1).last() == fs[i]);
}

/// Once a prefix of the fields fails to convert, the whole sequence fails
/// with that same error.
pub proof fn lemma_fields_err_stable(ctx: ConvertContext, fs: Seq<SourceFieldType>, i: int)
    requires
        0 <= i <= fs.len(),
        spec_convert_fields(ctx, fs.take(i)) is Err,
    ensures
        spec_convert_fields(ctx, fs) == spec_convert_fields(ctx, fs.take(i)),
    decreases fs.len() - i,
{
    if i == fs.len() {
        assert(fs.take(i) =~= fs);
    } else {
        lemma_fields_succ(ctx, fs, i);
        lemma_fields_err_stable(ctx, fs, i + 1);
    }
}

/// Once a prefix of the group's members fails to convert, the whole group
/// fails with that same error.
pub proof fn lemma_group_err_stable(ctx: ConvertContext, k: int, n: int)
    requires
        0 <= k <= n,
        group_convert(ctx, k) is Err,
    ensures
        group_convert(ctx, n) == group_convert(ctx, k),
    decreases n - k,
{
    if k < n {
        lemma_group_err_stable(ctx, k + 1, n);
    }
}

/// A successful conversion of the group's first `k` members converts each of
/// them successfully, in order.
pub proof fn lemma_group_convert_index(ctx: ConvertContext, k: int)
    requires
        0 <= k,
        group_convert(ctx, k) is Ok,
    ensures
        group_convert(ctx, k)->Ok_0.len() == k,
        forall|j: int|
            0 <= j < k ==> {
                &&& spec_convert_sub(
                    ctx,
                    ctx.session.bodies[#[trigger] ctx.members()[j] as int],
                ) is Ok
                &&& group_convert(ctx, k)->Ok_0[j] == spec_convert_sub(
                    ctx,
                    ctx.session.bodies[ctx.members()[j] as int],
                )->Ok_0
            },
    decreases k,
{
    if k > 0 {
        lemma_group_convert_index(ctx, k - 1);
    }
}

/// A successful conversion preserves the composite kind: arrays stay arrays,
/// functions stay functions, structs stay structs.
pub proof fn lemma_convert_preserves_kind(ctx: ConvertContext, b: SourceSubTypeView)
    requires
        spec_convert_sub(ctx, b) is Ok,
    ensures
        spec_convert_sub(ctx, b)->Ok_0 is Array <==> b.composite_type is Array,
        spec_convert_sub(ctx, b)->Ok_0 is Func <==> b.composite_type is Func,
        spec_convert_sub(ctx, b)->Ok_0 is Struct <==> b.composite_type is Struct,
{
}

/// A converter from the validator's source-side types to canonical types.
pub struct WasmparserTypeConverter<'a> {
    /// The builder whose canonical store and type map resolve references.
    pub types: &'a ModuleTypesBuilder,
    /// The module's type-index table, for module-local references.
    pub module: &'a Module,
    /// The active group context: the validator's table and the group id of
    /// the group currently being defined.
    pub rec_group_context: Option<(&'a ValidatorTypes, usize)>,
}

impl<'a> WasmparserTypeConverter<'a> {
    /// Construct a new converter against the given builder and module table.
    pub fn new(types: &'a ModuleTypesBuilder, module: &'a Module) -> (r: Self)
        ensures
            r.types == types,
            r.module == module,
            r.rec_group_context is None,
    {
        WasmparserTypeConverter { types, module, rec_group_context: None }
    }

    /// Configure this converter to be within the context of defining the
    /// current rec group.
    pub fn with_rec_group(&mut self, wasmparser_types: &'a ValidatorTypes, rec_group: usize)
        ensures
            final(self).types == old(self).types,
            final(self).module == old(self).module,
            final(self).rec_group_context == Some((wasmparser_types, rec_group)),
    {
        self.rec_group_context = Some((wasmparser_types, rec_group));
    }

    /// The conversion context this converter resolves against.
    pub open spec fn ctx(&self) -> ConvertContext {
        let r = self.types.defining_rec_group->Some_0;
        ConvertContext {
            store0: self.types.types@.wasm_types.take(r.start as int),
            type_map: self.types.wasmparser_to_wasmtime@,
            session: self.types.session@,
            rec_group_id: self.rec_group_context->Some_0.1,
            start: r.start,
            module: self.module.types@,
        }
    }

    /// The converter is inside an active group definition whose already
    /// converted members match the specified conversion: the store holds
    /// exactly the pre-group definitions plus the converted prefix.
    pub open spec fn filling_wf(&self) -> bool {
        let b = self.types;
        let ctx = self.ctx();
        &&& self.rec_group_context is Some
        &&& (self.rec_group_context->Some_0.0)@ == b.session@
        &&& b.defining_rec_group is Some
        &&& {
            let r = b.defining_rec_group->Some_0;
            let n = ctx.members().len() as int;
            let filled = b.types@.wasm_types.len() - r.start;
            &&& b.session@.wf()
            &&& ctx.rec_group_id < b.session@.groups.len()
            &&& r.end == r.start + n
            &&& r.start <= b.types@.wasm_types.len() <= r.end
            &&& b.types@.wf()
            &&& forall|j: int|
                0 <= j < n ==> {
                    &&& b.wasmparser_to_wasmtime@.contains_key(#[trigger] ctx.members()[j])
                    &&& b.wasmparser_to_wasmtime@[ctx.members()[j]] == r.start + j
                }
            &&& group_convert(ctx, filled) is Ok
            &&& forall|j: int|
                0 <= j < filled ==> b.types@.wasm_types[r.start + j] == group_convert(
                    ctx,
                    filled,
                )->Ok_0[j]
        }
    }
}

impl<'a> WasmparserTypeConverter<'a> {
    /// Resolve one concrete type reference to its canonical heap type,
    /// classifying it from the finished store when its definition is already
    /// filled, and from the active group's source bodies otherwise.
    pub fn lookup_heap_type(&self, index: UnpackedIndex) -> (r: Result<WasmHeapType, TypesError>)
        requires
            self.filling_wf(),
            heap_ok(self.ctx(), SourceHeapType::Concrete(index)),
        ensures
            r == spec_lookup_heap(self.ctx(), index),
    {
        let ghost ctx = self.ctx();
        let ghost reservation = self.types.defining_rec_group->Some_0;
        let ghost filled = self.types.types@.wasm_types.len() - reservation.start;
        proof {
            assert(ctx.store0.len() == reservation.start);
            lemma_group_convert_index(ctx, filled);
        }
        match index {
            UnpackedIndex::Id(id) => {
                proof {
                    if is_member(ctx.members(), id) {
                        let p = member_position(ctx.members(), id);
                        assert(0 <= p < ctx.members().len() && ctx.members()[p] == id);
                    }
                }
                let interned = self.types.wasmparser_to_wasmtime.get(id).unwrap();
                proof {
                    if is_member(ctx.members(), id) {
                        let p = member_position(ctx.members(), id);
                        assert(self.types.wasmparser_to_wasmtime@[ctx.members()[p]]
                            == reservation.start + p);
                        assert(interned == spec_resolve_id(ctx, id));
                    } else {
                        assert(interned == spec_resolve_id(ctx, id));
                    }
                }
                let idx = EngineOrModuleTypeIndex::Module(interned);
                match self.types.types.get(interned) {
                    Some(t) => {
                        proof {
                            if interned >= reservation.start {
                                // A member of the active group whose body is
                                // already converted: its stored kind is its
                                // source kind.
                                let p = member_position(ctx.members(), id);
                                assert(ctx.members()[p] == id);
                                assert(interned == reservation.start + p);
                                assert(self.types.types@.wasm_types[interned as int]
                                    == group_convert(ctx, filled)->Ok_0[p]);
                                lemma_convert_preserves_kind(
                                    ctx,
                                    ctx.session.bodies[id as int],
                                );
                            } else {
                                assert(ctx.store0[interned as int] == self.types.types@.wasm_types[
                                    interned as int
                                ]);
                            }
                        }
                        Ok(
                            match &t.composite_type {
                                WasmCompositeType::Array(_) => WasmHeapType::ConcreteArray(idx),
                                WasmCompositeType::Func(_) => WasmHeapType::ConcreteFunc(idx),
                                WasmCompositeType::Struct(_) => WasmHeapType::ConcreteStruct(idx),
                            },
                        )
                    },
                    None => {
                        let (vt, _rg) = self.rec_group_context.unwrap();
                        let b = vt.body(id);
                        Ok(
                            match &b.composite_type {
                                SourceCompositeType::Array(_) => WasmHeapType::ConcreteArray(idx),
                                SourceCompositeType::Func(_) => WasmHeapType::ConcreteFunc(idx),
                                SourceCompositeType::Struct(_) => WasmHeapType::ConcreteStruct(
                                    idx,
                                ),
                            },
                        )
                    },
                }
            },
            UnpackedIndex::Module(m) => {
                if m >= self.module.types.len() {
                    return Err(TypesError::ModuleIndexOutOfBounds(m));
                }
                let interned = self.module.types[m];
                let idx = EngineOrModuleTypeIndex::Module(interned);
                match self.types.types.get(interned) {
                    Some(t) => {
                        proof {
                            if interned >= reservation.start {
                                let p = interned - reservation.start;
                                assert(self.types.types@.wasm_types[interned as int]
                                    == group_convert(ctx, filled)->Ok_0[p]);
                                lemma_convert_preserves_kind(
                                    ctx,
                                    ctx.session.bodies[ctx.members()[p] as int],
                                );
                            } else {
                                assert(ctx.store0[interned as int] == self.types.types@.wasm_types[
                                    interned as int
                                ]);
                            }
                        }
                        Ok(
                            match &t.composite_type {
                                WasmCompositeType::Array(_) => WasmHeapType::ConcreteArray(idx),
                                WasmCompositeType::Func(_) => WasmHeapType::ConcreteFunc(idx),
                                WasmCompositeType::Struct(_) => WasmHeapType::ConcreteStruct(idx),
                            },
                        )
                    },
                    None => {
                        let (vt, rg) = self.rec_group_context.unwrap();
                        let reservation_start = self.types.defining_rec_group.unwrap().start;
                        let pos = interned - reservation_start;
                        let elems = vt.rec_group_elements(rg);
                        let id2 = elems[pos];
                        proof {
                            assert(ctx.members()[pos as int] == id2);
                            assert(id2 < ctx.session.bodies.len());
                        }
                        let b = vt.body(id2);
                        Ok(
                            match &b.composite_type {
                                SourceCompositeType::Array(_) => WasmHeapType::ConcreteArray(idx),
                                SourceCompositeType::Func(_) => WasmHeapType::ConcreteFunc(idx),
                                SourceCompositeType::Struct(_) => WasmHeapType::ConcreteStruct(
                                    idx,
                                ),
                            },
                        )
                    },
                }
            },
        }
    }

    /// Convert one source-side value type to canonical form.
    fn convert_val(&self, v: SourceValType) -> (r: Result<WasmValType, TypesError>)
        requires
            self.filling_wf(),
            val_ok(self.ctx(), v),
        ensures
            r == spec_convert_val(self.ctx(), v),
    {
        match v {
            SourceValType::I32 => Ok(WasmValType::I32),
            SourceValType::I64 => Ok(WasmValType::I64),
            SourceValType::Ref(rt) => {
                let h = match rt.heap_type {
                    SourceHeapType::Extern => Ok(WasmHeapType::Extern),
                    SourceHeapType::Func => Ok(WasmHeapType::Func),
                    SourceHeapType::Any => Ok(WasmHeapType::Any),
                    SourceHeapType::Concrete(u) => self.lookup_heap_type(u),
                };
                match h {
                    Ok(heap) => Ok(
                        WasmValType::Ref(WasmRefType { nullable: rt.nullable, heap_type: heap }),
                    ),
                    Err(e) => Err(e),
                }
            },
        }
    }

    /// Convert a sequence of source-side value types; the first failure wins.
    fn convert_vals(&self, vs: &Vec<SourceValType>) -> (r: Result<Vec<WasmValType>, TypesError>)
        requires
            self.filling_wf(),
            forall|i: int| 0 <= i < vs@.len() ==> val_ok(self.ctx(), #[trigger] vs@[i]),
        ensures
            match r {
                Ok(out) => spec_convert_vals(self.ctx(), vs@) == Ok::<_, TypesError>(out@),
                Err(e) => spec_convert_vals(self.ctx(), vs@) == Err::<Seq<WasmValType>, _>(e),
            },
    {
        let ghost ctx = self.ctx();
        let mut out: Vec<WasmValType> = Vec::new();
        let n = vs.len();
        for i in 0..n
            invariant
                n == vs.len(),
                self.filling_wf(),
                ctx == self.ctx(),
                forall|j: int| 0 <= j < vs@.len() ==> val_ok(self.ctx(), #[trigger] vs@[j]),
                spec_convert_vals(ctx, vs@.take(i as int)) == Ok::<_, TypesError>(out@),
        {
            proof {
                lemma_vals_succ(ctx, vs@, i as int);
            }
            match self.convert_val(vs[i]) {
                Ok(v) => {
                    out.push(v);
                },
                Err(e) => {
                    proof {
                        lemma_vals_err_stable(ctx, vs@, i + 1);
                    }
                    return Err(e);
                },
            }
        }
        proof {
            assert(vs@.take(n as int) =~= vs@);
        }
        Ok(out)
    }

    /// Convert one source-side field type.
    fn convert_field(&self, f: SourceFieldType) -> (r: Result<WasmFieldType, TypesError>)
        requires
            self.filling_wf(),
            val_ok(self.ctx(), f.element_type),
        ensures
            r == spec_convert_field(self.ctx(), f),
    {
        match self.convert_val(f.element_type) {
            Ok(v) => Ok(WasmFieldType { element_type: v, mutable: f.mutable }),
            Err(e) => Err(e),
        }
    }

    /// Convert a sequence of source-side field types; the first failure wins.
    fn convert_fields(&self, fs: &Vec<SourceFieldType>) -> (r: Result<
        Vec<WasmFieldType>,
        TypesError,
    >)
        requires
            self.filling_wf(),
            forall|i: int|
                0 <= i < fs@.len() ==> val_ok(self.ctx(), (#[trigger] fs@[i]).element_type),
        ensures
            match r {
                Ok(out) => spec_convert_fields(self.ctx(), fs@) == Ok::<_, TypesError>(out@),
                Err(e) => spec_convert_fields(self.ctx(), fs@) == Err::<Seq<WasmFieldType>, _>(e),
            },
    {
        let ghost ctx = self.ctx();
        let mut out: Vec<WasmFieldType> = Vec::new();
        let n = fs.len();
        for i in 0..n
            invariant
                n == fs.len(),
                self.filling_wf(),
                ctx == self.ctx(),
                forall|j: int|
                    0 <= j < fs@.len() ==> val_ok(self.ctx(), (#[trigger] fs@[j]).element_type),
                spec_convert_fields(ctx, fs@.take(i as int)) == Ok::<_, TypesError>(out@),
        {
            proof {
                lemma_fields_succ(ctx, fs@, i as int);
            }
            match self.convert_field(fs[i]) {
                Ok(f) => {
                    out.push(f);
                },
                Err(e) => {
                    proof {
                        lemma_fields_err_stable(ctx, fs@, i + 1);
                    }
                    return Err(e);
                },
            }
        }
        proof {
            assert(fs@.take(n as int) =~= fs@);
        }
        Ok(out)
    }

    /// Convert one source-side type definition to canonical form.
    pub fn convert_sub_type(&self, ty: &SourceSubType) -> (r: Result<WasmSubType, TypesError>)
        requires
            self.filling_wf(),
            body_ok(self.ctx(), ty@),
        ensures
            match r {
                Ok(t) => spec_convert_sub(self.ctx(), ty@) == Ok::<_, TypesError>(t@),
                Err(e) => spec_convert_sub(self.ctx(), ty@) == Err::<WasmCompositeTypeView, _>(e),
            },
    {
        if !ty.is_final || ty.supertype.is_some() {
            return Err(TypesError::UnsupportedSubtype);
        }
        match &ty.composite_type {
            SourceCompositeType::Func(f) => {
                let params = match self.convert_vals(&f.params) {
                    Ok(p) => p,
                    Err(e) => {
                        return Err(e);
                    },
                };
                let results = match self.convert_vals(&f.results) {
                    Ok(p) => p,
                    Err(e) => {
                        return Err(e);
                    },
                };
                Ok(
                    WasmSubType {
                        composite_type: WasmCompositeType::Func(WasmFuncType { params, results }),
                    },
                )
            },
            SourceCompositeType::Array(a) => match self.convert_field(a.0) {
                Ok(f) => Ok(
                    WasmSubType { composite_type: WasmCompositeType::Array(WasmArrayType(f)) },
                ),
                Err(e) => Err(e),
            },
            SourceCompositeType::Struct(s) => match self.convert_fields(&s.fields) {
                Ok(fields) => Ok(
                    WasmSubType {
                        composite_type: WasmCompositeType::Struct(WasmStructType { fields }),
                    },
                ),
                Err(e) => Err(e),
            },
        }
    }
}

} // verus!
