//! End-to-end tests of the type interner: group interning, deduplication,
//! forward and cross-group references, trampoline derivation, and failure
//! behaviour.

use module_types::module_types_builder::Module;
use module_types::module_types_builder::ModuleTypesBuilder;
use module_types::types::EngineOrModuleTypeIndex;
use module_types::types::TypesError;
use module_types::types::WasmCompositeType;
use module_types::types::WasmHeapType;
use module_types::types::WasmRefType;
use module_types::types::WasmValType;
use module_types::validator_types::SourceCompositeType;
use module_types::validator_types::SourceFieldType;
use module_types::validator_types::SourceFuncType;
use module_types::validator_types::SourceHeapType;
use module_types::validator_types::SourceRefType;
use module_types::validator_types::SourceStructType;
use module_types::validator_types::SourceSubType;
use module_types::validator_types::SourceValType;
use module_types::validator_types::UnpackedIndex;
use module_types::validator_types::ValidatorTypes;

fn final_sub(composite_type: SourceCompositeType) -> SourceSubType {
    SourceSubType { is_final: true, supertype: None, composite_type }
}

fn func(params: Vec<SourceValType>, results: Vec<SourceValType>) -> SourceSubType {
    final_sub(SourceCompositeType::Func(SourceFuncType { params, results }))
}

fn source_ref(heap_type: SourceHeapType) -> SourceValType {
    SourceValType::Ref(SourceRefType { nullable: true, heap_type })
}

fn single_group_session(bodies: Vec<SourceSubType>) -> ValidatorTypes {
    let members: Vec<usize> = (0..bodies.len()).collect();
    ValidatorTypes { id: 7, groups: vec![members], owner: vec![0; bodies.len()], bodies }
}

fn empty_module() -> Module {
    Module { types: Vec::new() }
}

#[test]
fn intern_single_function_group() {
    let session = single_group_session(vec![func(vec![SourceValType::I32], vec![
        SourceValType::I64,
    ])]);
    let mut builder = ModuleTypesBuilder::new(&session);
    assert_eq!(builder.validator_id(), 7);
    let rg = builder
        .intern_rec_group(&empty_module(), &session, 0)
        .expect("conversion should succeed");
    assert_eq!(rg, 0);
    assert_eq!(builder.rec_group_elements(rg), vec![0]);
    let def = builder.index(0);
    match &def.composite_type {
        WasmCompositeType::Func(f) => {
            assert_eq!(f.params, vec![WasmValType::I32]);
            assert_eq!(f.results, vec![WasmValType::I64]);
        }
        other => panic!("expected a function definition, got {other:?}"),
    }
}

#[test]
fn interning_twice_is_idempotent() {
    let session = single_group_session(vec![func(vec![SourceValType::I32], vec![])]);
    let mut builder = ModuleTypesBuilder::new(&session);
    let module = empty_module();
    let first = builder.intern_rec_group(&module, &session, 0).unwrap();
    let len_after_first = builder.wasm_types().len();
    let second = builder.intern_rec_group(&module, &session, 0).unwrap();
    assert_eq!(first, second);
    assert_eq!(builder.wasm_types().len(), len_after_first);
}

#[test]
fn group_members_are_contiguous() {
    let session = single_group_session(vec![
        func(vec![], vec![]),
        func(vec![SourceValType::I32], vec![]),
        func(vec![SourceValType::I64], vec![]),
    ]);
    let mut builder = ModuleTypesBuilder::new(&session);
    let rg = builder.intern_rec_group(&empty_module(), &session, 0).unwrap();
    let elements = builder.rec_group_elements(rg);
    assert_eq!(elements, vec![0, 1, 2]);
}

#[test]
fn forward_and_backward_references_resolve_alike() {
    // Member 0 is a struct whose field references member 1 (a forward
    // reference); member 1 is a function whose parameter references member 0.
    let struct_body = final_sub(SourceCompositeType::Struct(SourceStructType {
        fields: vec![SourceFieldType {
            element_type: source_ref(SourceHeapType::Concrete(UnpackedIndex::Id(1))),
            mutable: false,
        }],
    }));
    let func_body = func(
        vec![source_ref(SourceHeapType::Concrete(UnpackedIndex::Id(0)))],
        vec![],
    );
    let session = single_group_session(vec![struct_body, func_body]);
    let mut builder = ModuleTypesBuilder::new(&session);
    let rg = builder.intern_rec_group(&empty_module(), &session, 0).unwrap();
    assert_eq!(builder.rec_group_elements(rg), vec![0, 1]);
    match &builder.index(0).composite_type {
        WasmCompositeType::Struct(s) => {
            assert_eq!(
                s.fields[0].element_type,
                WasmValType::Ref(WasmRefType {
                    nullable: true,
                    heap_type: WasmHeapType::ConcreteFunc(EngineOrModuleTypeIndex::Module(1)),
                })
            );
        }
        other => panic!("expected a struct definition, got {other:?}"),
    }
    match &builder.index(1).composite_type {
        WasmCompositeType::Func(f) => {
            assert_eq!(
                f.params[0],
                WasmValType::Ref(WasmRefType {
                    nullable: true,
                    heap_type: WasmHeapType::ConcreteStruct(EngineOrModuleTypeIndex::Module(0)),
                })
            );
        }
        other => panic!("expected a function definition, got {other:?}"),
    }
}

#[test]
fn cross_group_references_use_the_finished_store() {
    // Group 0 defines a function; group 1 references it by checker id.
    let session = ValidatorTypes {
        id: 1,
        groups: vec![vec![0], vec![1]],
        owner: vec![0, 1],
        bodies: vec![
            func(vec![], vec![]),
            func(vec![source_ref(SourceHeapType::Concrete(UnpackedIndex::Id(0)))], vec![]),
        ],
    };
    let mut builder = ModuleTypesBuilder::new(&session);
    let module = empty_module();
    let rg0 = builder.intern_rec_group(&module, &session, 0).unwrap();
    let rg1 = builder.intern_rec_group(&module, &session, 1).unwrap();
    assert_ne!(rg0, rg1);
    match &builder.index(1).composite_type {
        WasmCompositeType::Func(f) => {
            assert_eq!(
                f.params[0],
                WasmValType::Ref(WasmRefType {
                    nullable: true,
                    heap_type: WasmHeapType::ConcreteFunc(EngineOrModuleTypeIndex::Module(0)),
                })
            );
        }
        other => panic!("expected a function definition, got {other:?}"),
    }
}

#[test]
fn module_local_references_resolve_through_the_module_table() {
    let session = ValidatorTypes {
        id: 1,
        groups: vec![vec![0], vec![1]],
        owner: vec![0, 1],
        bodies: vec![
            func(vec![], vec![]),
            func(
                vec![source_ref(SourceHeapType::Concrete(UnpackedIndex::Module(0)))],
                vec![],
            ),
        ],
    };
    let mut builder = ModuleTypesBuilder::new(&session);
    let module0 = empty_module();
    builder.intern_rec_group(&module0, &session, 0).unwrap();
    // The caller records that module-local type index 0 is canonical index 0.
    let module1 = Module { types: vec![0] };
    builder.intern_rec_group(&module1, &session, 1).unwrap();
    match &builder.index(1).composite_type {
        WasmCompositeType::Func(f) => {
            assert_eq!(
                f.params[0],
                WasmValType::Ref(WasmRefType {
                    nullable: true,
                    heap_type: WasmHeapType::ConcreteFunc(EngineOrModuleTypeIndex::Module(0)),
                })
            );
        }
        other => panic!("expected a function definition, got {other:?}"),
    }
}

#[test]
fn self_normalized_signature_is_its_own_trampoline() {
    let session = single_group_session(vec![func(vec![SourceValType::I32], vec![
        SourceValType::I64,
    ])]);
    let mut builder = ModuleTypesBuilder::new(&session);
    builder.intern_rec_group(&empty_module(), &session, 0).unwrap();
    assert_eq!(builder.trampoline_type(0), 0);
    assert_eq!(builder.wasm_types().len(), 1);
}

#[test]
fn concrete_references_get_a_distinct_trampoline_fixed_point() {
    // A function whose parameter is a concrete self-reference normalizes to a
    // different signature, so a fresh trampoline definition is interned.
    let session = single_group_session(vec![func(
        vec![source_ref(SourceHeapType::Concrete(UnpackedIndex::Id(0)))],
        vec![],
    )]);
    let mut builder = ModuleTypesBuilder::new(&session);
    builder.intern_rec_group(&empty_module(), &session, 0).unwrap();
    let trampoline = builder.trampoline_type(0);
    assert_ne!(trampoline, 0);
    // The trampoline is its own trampoline.
    assert_eq!(builder.trampoline_type(trampoline), trampoline);
    // Its signature is the normalized form: an abstract nullable funcref.
    match &builder.index(trampoline).composite_type {
        WasmCompositeType::Func(f) => {
            assert_eq!(
                f.params,
                vec![WasmValType::Ref(WasmRefType {
                    nullable: true,
                    heap_type: WasmHeapType::Func,
                })]
            );
            assert_eq!(f.results, Vec::new());
        }
        other => panic!("expected a function definition, got {other:?}"),
    }
}

#[test]
fn equal_normalized_forms_share_one_trampoline() {
    // Two distinct function types: one takes a concrete funcref to type 0,
    // the other to type 1. Both normalize to (funcref) -> (), so they must
    // share a single trampoline definition.
    let session = ValidatorTypes {
        id: 1,
        groups: vec![vec![0, 1]],
        owner: vec![0, 0],
        bodies: vec![
            func(vec![source_ref(SourceHeapType::Concrete(UnpackedIndex::Id(0)))], vec![]),
            func(vec![source_ref(SourceHeapType::Concrete(UnpackedIndex::Id(1)))], vec![]),
        ],
    };
    let mut builder = ModuleTypesBuilder::new(&session);
    builder.intern_rec_group(&empty_module(), &session, 0).unwrap();
    let t0 = builder.trampoline_type(0);
    let t1 = builder.trampoline_type(1);
    assert_eq!(t0, t1);
    assert_eq!(builder.trampoline_types(), vec![(0, t0), (1, t0), (t0, t0)]);
}

#[test]
fn unsupported_subtyping_is_a_recoverable_error() {
    let session = single_group_session(vec![SourceSubType {
        is_final: false,
        supertype: None,
        composite_type: SourceCompositeType::Func(SourceFuncType {
            params: vec![],
            results: vec![],
        }),
    }]);
    let mut builder = ModuleTypesBuilder::new(&session);
    let result = builder.intern_rec_group(&empty_module(), &session, 0);
    assert_eq!(result, Err(TypesError::UnsupportedSubtype));
}

#[test]
fn out_of_range_module_index_is_a_recoverable_error() {
    let session = single_group_session(vec![func(
        vec![source_ref(SourceHeapType::Concrete(UnpackedIndex::Module(3)))],
        vec![],
    )]);
    let mut builder = ModuleTypesBuilder::new(&session);
    let result = builder.intern_rec_group(&Module { types: vec![0, 1, 2] }, &session, 0);
    assert_eq!(result, Err(TypesError::ModuleIndexOutOfBounds(3)));
}

#[test]
fn failed_group_is_not_recorded_and_retry_is_brand_new() {
    // Group 0 fails to convert; it must stay absent from the deduplication
    // table, so a retry takes the full path again instead of hitting a stale
    // cache entry, and other groups are unaffected.
    let session = ValidatorTypes {
        id: 1,
        groups: vec![vec![0], vec![1]],
        owner: vec![0, 1],
        bodies: vec![
            SourceSubType {
                is_final: true,
                supertype: Some(9),
                composite_type: SourceCompositeType::Func(SourceFuncType {
                    params: vec![],
                    results: vec![],
                }),
            },
            func(vec![SourceValType::I32], vec![]),
        ],
    };
    let mut builder = ModuleTypesBuilder::new(&session);
    let module = empty_module();
    let first = builder.intern_rec_group(&module, &session, 0);
    assert_eq!(first, Err(TypesError::UnsupportedSubtype));
    assert_eq!(builder.already_seen.get(0), None);
    let retry = builder.intern_rec_group(&module, &session, 0);
    assert_eq!(retry, Err(TypesError::UnsupportedSubtype));
    assert_eq!(builder.already_seen.get(0), None);
    // A healthy group still interns after the failure.
    let rg1 = builder.intern_rec_group(&module, &session, 1).unwrap();
    let elements = builder.rec_group_elements(rg1);
    assert_eq!(elements.len(), 1);
    match &builder.index(elements[0]).composite_type {
        WasmCompositeType::Func(f) => assert_eq!(f.params, vec![WasmValType::I32]),
        other => panic!("expected a function definition, got {other:?}"),
    }
}

#[test]
fn intern_type_interns_the_whole_group() {
    let session = ValidatorTypes {
        id: 1,
        groups: vec![vec![0, 1]],
        owner: vec![0, 0],
        bodies: vec![func(vec![], vec![]), func(vec![SourceValType::I32], vec![])],
    };
    let mut builder = ModuleTypesBuilder::new(&session);
    let idx = builder.intern_type(&empty_module(), &session, 1).unwrap();
    assert_eq!(idx, 1);
    // The sibling was interned along with it.
    assert_eq!(builder.wasm_types().len(), 2);
    let again = builder.intern_type(&empty_module(), &session, 0).unwrap();
    assert_eq!(again, 0);
}

#[test]
fn finish_returns_the_store() {
    let session = single_group_session(vec![func(vec![], vec![])]);
    let mut builder = ModuleTypesBuilder::new(&session);
    builder.intern_rec_group(&empty_module(), &session, 0).unwrap();
    let types = builder.finish();
    assert_eq!(types.wasm_types().len(), 1);
    assert_eq!(types.rec_group_elements(0), vec![0]);
    assert_eq!(types.trampoline_type(0), 0);
}

#[test]
fn reserve_does_not_change_contents() {
    let session = single_group_session(vec![func(vec![], vec![])]);
    let mut builder = ModuleTypesBuilder::new(&session);
    builder.intern_rec_group(&empty_module(), &session, 0).unwrap();
    builder.reserve_wasm_signatures(100);
    assert_eq!(builder.wasm_types().len(), 1);
    assert_eq!(builder.rec_group_elements(0), vec![0]);
}
