//! Canonicalized wasm type definitions.
//!
//! These are the index-addressable, fully resolved forms that the interner
//! stores: every type reference inside them is an already-assigned canonical
//! index (or an engine-level index supplied from outside the module).

use vstd::prelude::*;

verus! {

/// An error surfaced to the caller when a type body cannot be converted to
/// canonical form. These are the recoverable failures; internal-consistency
/// violations are excluded by preconditions instead.
#[derive(Clone, Copy, Debug, PartialEq, Eq, Structural)]
pub enum TypesError {
    /// The source type uses explicit subtyping (a supertype, or a non-final
    /// declaration), which the canonical representation does not support.
    UnsupportedSubtype,
    /// A module-local type reference lies outside the module's type-index
    /// table; the payload is the out-of-range index.
    ModuleIndexOutOfBounds(usize),
}

/// A canonical type index that is either owned by this module's compilation
/// session or supplied by the host engine.
#[derive(Clone, Copy, Debug, PartialEq, Eq, Structural)]
pub enum EngineOrModuleTypeIndex {
    /// An index into this module's canonical type store.
    Module(usize),
    /// An opaque engine-level index, defined outside this session. The
    /// converter never produces this variant; it exists so canonical types
    /// can share a representation with externally supplied ones.
    Engine(usize),
}

/// A canonical heap type: the target of a reference type.
#[derive(Clone, Copy, Debug, PartialEq, Eq, Structural)]
pub enum WasmHeapType {
    /// The abstract extern type.
    Extern,
    /// The abstract (top) function type.
    Func,
    /// The abstract (top) internal type.
    Any,
    /// A reference to a concrete array type definition.
    ConcreteArray(EngineOrModuleTypeIndex),
    /// A reference to a concrete function type definition.
    ConcreteFunc(EngineOrModuleTypeIndex),
    /// A reference to a concrete struct type definition.
    ConcreteStruct(EngineOrModuleTypeIndex),
}

/// A canonical reference type: a possibly nullable pointer to a heap type.
#[derive(Clone, Copy, Debug, PartialEq, Eq, Structural)]
pub struct WasmRefType {
    pub nullable: bool,
    pub heap_type: WasmHeapType,
}

/// A canonical value type.
#[derive(Clone, Copy, Debug, PartialEq, Eq, Structural)]
pub enum WasmValType {
    I32,
    I64,
    Ref(WasmRefType),
}

/// A canonical function signature.
#[derive(Clone, Debug, PartialEq, Eq)]
pub struct WasmFuncType {
    pub params: Vec<WasmValType>,
    pub results: Vec<WasmValType>,
}

/// The mathematical model of a [`WasmFuncType`].
#[verifier::ext_equal]
pub ghost struct WasmFuncTypeView {
    pub params: Seq<WasmValType>,
    pub results: Seq<WasmValType>,
}

impl View for WasmFuncType {
    type V = WasmFuncTypeView;

    open spec fn view(&self) -> WasmFuncTypeView {
        WasmFuncTypeView { params: self.params@, results: self.results@ }
    }
}

/// One field of a canonical struct type, or the element of an array type.
#[derive(Clone, Copy, Debug, PartialEq, Eq, Structural)]
pub struct WasmFieldType {
    pub element_type: WasmValType,
    pub mutable: bool,
}

/// A canonical array type.
#[derive(Clone, Copy, Debug, PartialEq, Eq, Structural)]
pub struct WasmArrayType(pub WasmFieldType);

/// A canonical struct type.
#[derive(Clone, Debug, PartialEq, Eq)]
pub struct WasmStructType {
    pub fields: Vec<WasmFieldType>,
}

/// A canonical composite type: the tagged-union shape of one definition.
#[derive(Clone, Debug, PartialEq, Eq)]
pub enum WasmCompositeType {
    Array(WasmArrayType),
    Func(WasmFuncType),
    Struct(WasmStructType),
}

/// The mathematical model of a [`WasmCompositeType`].
#[verifier::ext_equal]
pub ghost enum WasmCompositeTypeView {
    Array(WasmArrayType),
    Func(WasmFuncTypeView),
    Struct(Seq<WasmFieldType>),
}

impl View for WasmCompositeType {
    type V = WasmCompositeTypeView;

    open spec fn view(&self) -> WasmCompositeTypeView {
        match self {
            WasmCompositeType::Array(a) => WasmCompositeTypeView::Array(*a),
            WasmCompositeType::Func(f) => WasmCompositeTypeView::Func(f@),
            WasmCompositeType::Struct(s) => WasmCompositeTypeView::Struct(s.fields@),
        }
    }
}

/// A canonical type definition as stored: exactly its composite type.
/// Finality and supertypes are not represented; sources that use them are
/// rejected during conversion.
#[derive(Clone, Debug, PartialEq, Eq)]
pub struct WasmSubType {
    pub composite_type: WasmCompositeType,
}

impl View for WasmSubType {
    type V = WasmCompositeTypeView;

    open spec fn view(&self) -> WasmCompositeTypeView {
        self.composite_type@
    }
}

impl WasmSubType {
    /// Whether this definition is a function signature.
    pub fn is_func(&self) -> (r: bool)
        ensures
            r == self@ is Func,
    {
        match &self.composite_type {
            WasmCompositeType::Func(_) => true,
            _ => false,
        }
    }
}

impl WasmCompositeTypeView {
    /// The function signature held by a `Func` definition.
    pub open spec fn func_sig(self) -> WasmFuncTypeView
        recommends
            self is Func,
    {
        self->Func_0
    }
}

/// Compare two canonical function signatures structurally.
pub fn func_types_equal(a: &WasmFuncType, b: &WasmFuncType) -> (r: bool)
    ensures
        r <==> a@ == b@,
{
    if a.params.len() != b.params.len() || a.results.len() != b.results.len() {
        return false;
    }
    let n = a.params.len();
    for i in 0..n
        invariant
            n == a.params.len() == b.params.len(),
            forall|j: int| 0 <= j < i ==> a.params@[j] == b.params@[j],
    {
        if a.params[i] != b.params[i] {
            return false;
        }
    }
    let m = a.results.len();
    for i in 0..m
        invariant
            m == a.results.len() == b.results.len(),
            forall|j: int| 0 <= j < i ==> a.results@[j] == b.results@[j],
    {
        if a.results[i] != b.results[i] {
            return false;
        }
    }
    proof {
        assert(a@.params =~= b@.params);
        assert(a@.results =~= b@.results);
        assert(a@ =~= b@);
    }
    true
}

/// Copy a canonical function signature. Written out so that the contract can
/// promise the copy models the original.
pub fn clone_func_type(f: &WasmFuncType) -> (r: WasmFuncType)
    ensures
        r@ == f@,
{
    let mut params: Vec<WasmValType> = Vec::new();
    let mut results: Vec<WasmValType> = Vec::new();
    let np = f.params.len();
    for i in 0..np
        invariant
            np == f.params.len(),
            params@ == f.params@.take(i as int),
    {
        params.push(f.params[i]);
        proof {
            assert(params@ =~= f.params@.take(i + 1));
        }
    }
    let nr = f.results.len();
    for i in 0..nr
        invariant
            nr == f.results.len(),
            results@ == f.results@.take(i as int),
    {
        results.push(f.results[i]);
        proof {
            assert(results@ =~= f.results@.take(i + 1));
        }
    }
    proof {
        assert(params@ =~= f.params@);
        assert(results@ =~= f.results@);
    }
    let r = WasmFuncType { params, results };
    proof {
        assert(r@ =~= f@);
    }
    r
}

/// The ABI-normalized ("trampoline") form of a heap type: every concrete
/// reference collapses to its abstract top type.
pub open spec fn trampoline_heap_type(h: WasmHeapType) -> WasmHeapType {
    match h {
        WasmHeapType::Extern => WasmHeapType::Extern,
        WasmHeapType::Func => WasmHeapType::Func,
        WasmHeapType::ConcreteFunc(_) => WasmHeapType::Func,
        WasmHeapType::Any => WasmHeapType::Any,
        WasmHeapType::ConcreteArray(_) => WasmHeapType::Any,
        WasmHeapType::ConcreteStruct(_) => WasmHeapType::Any,
    }
}

/// The ABI-normalized form of a value type: references become nullable
/// references to their top heap type; numeric types are unchanged.
pub open spec fn trampoline_val_type(v: WasmValType) -> WasmValType {
    match v {
        WasmValType::I32 => WasmValType::I32,
        WasmValType::I64 => WasmValType::I64,
        WasmValType::Ref(r) => WasmValType::Ref(
            WasmRefType { nullable: true, heap_type: trampoline_heap_type(r.heap_type) },
        ),
    }
}

/// The ABI-normalized form of a function signature.
pub open spec fn trampoline_func_type(f: WasmFuncTypeView) -> WasmFuncTypeView {
    WasmFuncTypeView {
        params: f.params.map_values(|v: WasmValType| trampoline_val_type(v)),
        results: f.results.map_values(|v: WasmValType| trampoline_val_type(v)),
    }
}

/// Normalization is a projection: applying it twice gives the same signature
/// as applying it once, so every normalized signature is its own normal form.
pub proof fn lemma_trampoline_func_type_idempotent(f: WasmFuncTypeView)
    ensures
        trampoline_func_type(trampoline_func_type(f)) == trampoline_func_type(f),
{
    let g = trampoline_func_type(f);
    assert(trampoline_func_type(g).params =~= g.params);
    assert(trampoline_func_type(g).results =~= g.results);
    assert(trampoline_func_type(g) =~= g);
}

/// The result of deriving a trampoline signature: either the original
/// signature already is its own normal form, or a distinct normalized
/// signature was produced.
#[derive(Clone, Debug, PartialEq, Eq)]
pub enum TrampolineType {
    Unchanged,
    Changed(WasmFuncType),
}

fn trampoline_val(v: WasmValType) -> (r: WasmValType)
    ensures
        r == trampoline_val_type(v),
{
    match v {
        WasmValType::I32 => WasmValType::I32,
        WasmValType::I64 => WasmValType::I64,
        WasmValType::Ref(r) => WasmValType::Ref(
            WasmRefType {
                nullable: true,
                heap_type: match r.heap_type {
                    WasmHeapType::Extern => WasmHeapType::Extern,
                    WasmHeapType::Func => WasmHeapType::Func,
                    WasmHeapType::ConcreteFunc(_) => WasmHeapType::Func,
                    WasmHeapType::Any => WasmHeapType::Any,
                    WasmHeapType::ConcreteArray(_) => WasmHeapType::Any,
                    WasmHeapType::ConcreteStruct(_) => WasmHeapType::Any,
                },
            },
        ),
    }
}

fn trampoline_vals(vs: &Vec<WasmValType>, changed: &mut bool) -> (r: Vec<WasmValType>)
    ensures
        r@ == vs@.map_values(|v: WasmValType| trampoline_val_type(v)),
        *final(changed) == (*old(changed) || r@ != vs@),
{
    let mut out: Vec<WasmValType> = Vec::new();
    let mut any_change = false;
    let n = vs.len();
    for i in 0..n
        invariant
            n == vs.len(),
            out@.len() == i as int,
            forall|j: int| 0 <= j < i ==> out@[j] == trampoline_val_type(vs@[j]),
            any_change == exists|j: int|
                0 <= j < i && #[trigger] trampoline_val_type(vs@[j]) != vs@[j],
    {
        let t = trampoline_val(vs[i]);
        if t != vs[i] {
            any_change = true;
        }
        out.push(t);
    }
    proof {
        assert(out@ =~= vs@.map_values(|v: WasmValType| trampoline_val_type(v)));
        if any_change {
            let j = choose|j: int|
                0 <= j < n && #[trigger] trampoline_val_type(vs@[j]) != vs@[j];
            assert(out@[j] != vs@[j]);
        } else {
            assert(out@ =~= vs@);
        }
    }
    if any_change {
        *changed = true;
    }
    out
}

impl WasmFuncType {
    /// Derive the trampoline signature of this function signature. Returns
    /// `Unchanged` exactly when the signature is its own normalized form, and
    /// otherwise the distinct normalized signature.
    pub fn trampoline_type(&self) -> (r: TrampolineType)
        ensures
            match r {
                TrampolineType::Unchanged => trampoline_func_type(self@) == self@,
                TrampolineType::Changed(g) => g@ == trampoline_func_type(self@) && g@ != self@,
            },
    {
        let mut changed = false;
        let params = trampoline_vals(&self.params, &mut changed);
        let results = trampoline_vals(&self.results, &mut changed);
        if changed {
            let g = WasmFuncType { params, results };
            proof {
                assert(g@ =~= trampoline_func_type(self@));
            }
            TrampolineType::Changed(g)
        } else {
            proof {
                assert(trampoline_func_type(self@) =~= self@);
            }
            TrampolineType::Unchanged
        }
    }
}

} // verus!
