//! The laws the interner guarantees, stated over its invariant and the
//! specification functions that its contracts use.

use vstd::prelude::*;

use crate::convert::heap_for_canon;
use crate::convert::heap_for_source;
use crate::convert::is_member;
use crate::convert::member_position;
use crate::convert::spec_lookup_heap;
use crate::convert::spec_resolve_id;
use crate::convert::ConvertContext;
use crate::module_types_builder::ModuleTypesBuilder;
use crate::types::trampoline_func_type;
use crate::types::EngineOrModuleTypeIndex;
use crate::types::TypesError;
use crate::types::WasmHeapType;
use crate::validator_types::UnpackedIndex;

verus! {

/// Contiguity: a closed group's canonical range is exactly as long as its
/// source member list, and the type map sends member `i`, in declaration
/// order, to `start + i`; together with `rec_group_elements`, which returns
/// exactly the indices `[start, end)`, the group's members occupy a
/// contiguous, order-preserving block.
pub proof fn lemma_rec_group_contiguity(b: &ModuleTypesBuilder, rec_group_id: usize)
    requires
        b.wf(),
        b.already_seen@.contains_key(rec_group_id),
    ensures
        ({
            let rg = b.already_seen@[rec_group_id];
            let members = b.session@.groups[rec_group_id as int];
            &&& rg < b.types@.rec_groups.len()
            &&& b.types@.rec_groups[rg as int].end - b.types@.rec_groups[rg as int].start
                == members.len()
            &&& forall|i: int|
                0 <= i < members.len() ==> {
                    &&& b.wasmparser_to_wasmtime@.contains_key(#[trigger] members[i])
                    &&& b.wasmparser_to_wasmtime@[members[i]] == b.types@.rec_groups[
                        rg as int
                    ].start + i
                }
        }),
{
}

/// Forward-reference correctness: inside an active group, a checker-native
/// reference to the group's member at position `j` resolves to the reserved
/// index `start + j` and is classified by the member's source-side kind,
/// whether or not that member's body has been converted yet. A group with
/// forward references therefore resolves exactly as one without.
pub proof fn lemma_forward_reference_resolution(ctx: ConvertContext, j: int)
    requires
        ctx.session.wf(),
        ctx.rec_group_id < ctx.session.groups.len(),
        0 <= j < ctx.members().len(),
        ctx.start + ctx.members().len() <= usize::MAX,
        ctx.store0.len() <= ctx.start,
    ensures
        ({
            let id = ctx.members()[j];
            spec_lookup_heap(ctx, UnpackedIndex::Id(id)) == Ok::<WasmHeapType, TypesError>(
                heap_for_source(
                    ctx.session.bodies[id as int].composite_type,
                    EngineOrModuleTypeIndex::Module((ctx.start + j) as usize),
                ),
            )
        }),
{
    let members = ctx.members();
    let id = members[j];
    assert(0 <= j < members.len() && members[j] == id);
    assert(is_member(members, id));
    let p = member_position(members, id);
    assert(0 <= p < members.len() && members[p] == id);
    if p < j {
        assert(members[p] != members[j]);
    } else if j < p {
        assert(members[j] != members[p]);
    }
    assert(spec_resolve_id(ctx, id) == (ctx.start + j) as usize);
    assert(id < ctx.session.bodies.len());
}

/// Cross-group referencing: a checker-native reference to a type of an
/// earlier, already-closed group resolves through the type map and is
/// classified directly from the finished store, with no use of the active
/// group context.
pub proof fn lemma_cross_group_resolution(ctx: ConvertContext, id: usize)
    requires
        !is_member(ctx.members(), id),
        ctx.type_map.contains_key(id),
        ctx.type_map[id] < ctx.store0.len(),
    ensures
        spec_lookup_heap(ctx, UnpackedIndex::Id(id)) == Ok::<WasmHeapType, TypesError>(
            heap_for_canon(
                ctx.store0[ctx.type_map[id] as int],
                EngineOrModuleTypeIndex::Module(ctx.type_map[id]),
            ),
        ),
{
}

/// Trampoline identity: every set trampoline back-pointer leads to a
/// definition of the signature's ABI-normalized form. If a signature is its
/// own normalized form, its trampoline has that same signature (the
/// definition may be a shared earlier one); otherwise the trampoline is a
/// different definition. In both cases the trampoline is its own trampoline:
/// trampolines are fixed points.
pub proof fn lemma_trampoline_fixed_point(b: &ModuleTypesBuilder, ty: usize)
    requires
        b.wf(),
        ty < b.types@.trampoline_types.len(),
        b.types@.trampoline_types[ty as int] is Some,
    ensures
        ({
            let j = b.types@.trampoline_types[ty as int]->Some_0;
            let sig = b.types@.wasm_types[ty as int].func_sig();
            &&& b.types@.wasm_types[ty as int] is Func
            &&& j < b.types@.wasm_types.len()
            &&& b.types@.wasm_types[j as int] is Func
            &&& b.types@.wasm_types[j as int].func_sig() == trampoline_func_type(sig)
            &&& (trampoline_func_type(sig) != sig ==> j != ty)
            &&& b.types@.trampoline_types[j as int] == Some(j)
        }),
{
    let j = b.types@.trampoline_types[ty as int]->Some_0;
    let sig = b.types@.wasm_types[ty as int].func_sig();
    if trampoline_func_type(sig) != sig && j == ty {
        assert(b.types@.wasm_types[ty as int].func_sig() == trampoline_func_type(sig));
        assert(false);
    }
}

/// Trampoline sharing: two function definitions whose signatures have equal
/// ABI-normalized forms share the same trampoline canonical index.
pub proof fn lemma_trampoline_sharing(b: &ModuleTypesBuilder, t1: usize, t2: usize)
    requires
        b.wf(),
        t1 < b.types@.trampoline_types.len(),
        t2 < b.types@.trampoline_types.len(),
        b.types@.trampoline_types[t1 as int] is Some,
        b.types@.trampoline_types[t2 as int] is Some,
        trampoline_func_type(b.types@.wasm_types[t1 as int].func_sig()) == trampoline_func_type(
            b.types@.wasm_types[t2 as int].func_sig(),
        ),
    ensures
        b.types@.trampoline_types[t1 as int] == b.types@.trampoline_types[t2 as int],
{
    let form = trampoline_func_type(b.types@.wasm_types[t1 as int].func_sig());
    let j1 = b.types@.trampoline_types[t1 as int]->Some_0;
    let j2 = b.types@.trampoline_types[t2 as int]->Some_0;
    let k1 = choose|k: int|
        0 <= k < b.cache().len() && #[trigger] b.cache()[k] == (
        trampoline_func_type(b.types@.wasm_types[t1 as int].func_sig()),
        j1,
        );
    let k2 = choose|k: int|
        0 <= k < b.cache().len() && #[trigger] b.cache()[k] == (
        trampoline_func_type(b.types@.wasm_types[t2 as int].func_sig()),
        j2,
        );
    if k1 < k2 {
        assert(b.cache()[k1].0 != b.cache()[k2].0);
        assert(false);
    } else if k2 < k1 {
        assert(b.cache()[k2].0 != b.cache()[k1].0);
        assert(false);
    }
}

} // verus!
