use std::cell::Cell;

use move_loader::abilities::AbilitySet;
use move_loader::code::{
    Bytecode, CodeUnit, FunctionDef, FunctionHandle, ModuleCode, ScriptCode, SignatureToken,
    StructDef, StructFieldInformation, StructHandle, StructTypeParameter,
};
use move_loader::errors::{StatusCode, VmError};
use move_loader::ids::ModuleId;
use move_loader::loader::Loader;
use move_loader::oracle::{DataStore, FormatOracle, ModuleRelations, NativeFunctions};
use move_loader::runtime_types::Type;
use move_loader::type_cache::{StructTag, TypeTag};

fn abilities(c: bool, d: bool, s: bool, k: bool) -> AbilitySet {
    AbilitySet { has_copy: c, has_drop: d, has_store: s, has_key: k }
}

fn mk_id(addr: u8, name: &str) -> ModuleId {
    ModuleId { address: vec![addr], name: name.as_bytes().to_vec() }
}

/// A small declarative description from which a fresh `ModuleCode` can be
/// built any number of times.
struct ModDesc {
    addr: u8,
    name: String,
    deps: Vec<(u8, String)>,
    friends: Vec<(u8, String)>,
    /// (name, abilities, field tokens referencing struct handles)
    structs: Vec<(String, AbilitySet, Vec<SignatureToken>)>,
    /// (name, type-parameter constraints)
    functions: Vec<(String, Vec<AbilitySet>)>,
}

fn clone_token(t: &SignatureToken) -> SignatureToken {
    match t {
        SignatureToken::Bool => SignatureToken::Bool,
        SignatureToken::U8 => SignatureToken::U8,
        SignatureToken::U64 => SignatureToken::U64,
        SignatureToken::U128 => SignatureToken::U128,
        SignatureToken::Address => SignatureToken::Address,
        SignatureToken::Signer => SignatureToken::Signer,
        SignatureToken::Vector(x) => SignatureToken::Vector(Box::new(clone_token(x))),
        SignatureToken::Reference(x) => SignatureToken::Reference(Box::new(clone_token(x))),
        SignatureToken::MutableReference(x) => {
            SignatureToken::MutableReference(Box::new(clone_token(x)))
        }
        SignatureToken::TypeParameter(i) => SignatureToken::TypeParameter(*i),
        SignatureToken::Struct(h) => SignatureToken::Struct(*h),
        SignatureToken::StructInstantiation(h, ts) => {
            SignatureToken::StructInstantiation(*h, ts.iter().map(clone_token).collect())
        }
    }
}

fn build_module(desc: &ModDesc) -> ModuleCode {
    let mut module_handles = vec![mk_id(desc.addr, &desc.name)];
    for (a, n) in &desc.deps {
        module_handles.push(mk_id(*a, n));
    }
    let struct_handles = desc
        .structs
        .iter()
        .map(|(n, a, _)| StructHandle {
            module: 0,
            name: n.as_bytes().to_vec(),
            abilities: *a,
            type_parameters: vec![],
        })
        .collect::<Vec<_>>();
    let struct_defs = desc
        .structs
        .iter()
        .enumerate()
        .map(|(i, (_, _, fields))| StructDef {
            struct_handle: i,
            field_information: StructFieldInformation::Declared(
                fields.iter().map(clone_token).collect(),
            ),
        })
        .collect::<Vec<_>>();
    let function_handles = desc
        .functions
        .iter()
        .map(|(n, tps)| FunctionHandle {
            module: 0,
            name: n.as_bytes().to_vec(),
            parameters: 0,
            return_: 0,
            type_parameters: tps.clone(),
        })
        .collect::<Vec<_>>();
    let function_defs = (0..desc.functions.len())
        .map(|i| FunctionDef {
            function: i,
            is_native: false,
            code: Some(CodeUnit { locals: 0, code: vec![] }),
        })
        .collect::<Vec<_>>();
    ModuleCode {
        version: 5,
        self_module: 0,
        module_handles,
        struct_handles,
        function_handles,
        struct_defs,
        function_defs,
        struct_def_instantiations: vec![],
        function_instantiations: vec![],
        field_handles: vec![],
        field_instantiations: vec![],
        signatures: vec![vec![]],
        constants: vec![],
        friends: desc.friends.iter().map(|(a, n)| mk_id(*a, n)).collect(),
    }
}

struct TestStore {
    /// (identity, raw byte blob served for it)
    entries: Vec<(ModuleId, Vec<u8>)>,
    fetches: Cell<u32>,
}

impl TestStore {
    fn new(entries: Vec<(ModuleId, Vec<u8>)>) -> TestStore {
        TestStore { entries, fetches: Cell::new(0) }
    }
}

impl DataStore for TestStore {
    fn load_module(&self, id: &ModuleId) -> Result<Vec<u8>, VmError> {
        self.fetches.set(self.fetches.get() + 1);
        for (k, v) in &self.entries {
            if k.address == id.address && k.name == id.name {
                return Ok(v.clone());
            }
        }
        Err(VmError::undefined(StatusCode::MissingDependency))
    }
}

struct TestOracle {
    /// byte-blob key -> module description
    modules: Vec<(u8, ModDesc)>,
    scripts: Vec<(u8, ScriptCode)>,
    deserialized: Cell<u32>,
}

fn clone_script(s: &ScriptCode) -> ScriptCode {
    ScriptCode {
        version: s.version,
        module_handles: s
            .module_handles
            .iter()
            .map(|m| ModuleId { address: m.address.clone(), name: m.name.clone() })
            .collect(),
        struct_handles: vec![],
        function_handles: vec![],
        function_instantiations: vec![],
        signatures: s
            .signatures
            .iter()
            .map(|sig| sig.iter().map(clone_token).collect())
            .collect(),
        constants: vec![],
        type_parameters: s.type_parameters.clone(),
        parameters: s.parameters,
        code: CodeUnit {
            locals: s.code.locals,
            code: s
                .code
                .code
                .iter()
                .map(|b| match b {
                    Bytecode::VecPushBack(si) => Bytecode::VecPushBack(*si),
                    Bytecode::VecLen(si) => Bytecode::VecLen(*si),
                    _ => Bytecode::Other,
                })
                .collect(),
        },
    }
}

impl FormatOracle for TestOracle {
    fn deserialize_module(&self, bytes: &Vec<u8>) -> Result<ModuleCode, VmError> {
        self.deserialized.set(self.deserialized.get() + 1);
        for (k, d) in &self.modules {
            if bytes.len() == 1 && bytes[0] == *k {
                return Ok(build_module(d));
            }
        }
        Err(VmError::undefined(StatusCode::CodeDeserializationError))
    }

    fn deserialize_script(&self, bytes: &Vec<u8>) -> Result<ScriptCode, VmError> {
        self.deserialized.set(self.deserialized.get() + 1);
        for (k, s) in &self.scripts {
            if bytes.len() == 1 && bytes[0] == *k {
                return Ok(clone_script(s));
            }
        }
        Err(VmError::in_script(StatusCode::CodeDeserializationError))
    }

    fn verify_module(&self, _module: &ModuleCode) -> Result<(), VmError> {
        Ok(())
    }

    fn verify_script(&self, _script: &ScriptCode) -> Result<(), VmError> {
        Ok(())
    }

    fn verify_module_dependencies(
        &self,
        _module: &ModuleCode,
        _deps: &Vec<&ModuleCode>,
    ) -> Result<(), VmError> {
        Ok(())
    }

    fn verify_script_dependencies(
        &self,
        _script: &ScriptCode,
        _deps: &Vec<&ModuleCode>,
    ) -> Result<(), VmError> {
        Ok(())
    }

    fn verify_cyclic(
        &self,
        _module: &ModuleCode,
        _relations: &Vec<ModuleRelations>,
    ) -> Result<(), VmError> {
        Ok(())
    }
}

fn plain_module(addr: u8, name: &str, deps: Vec<(u8, String)>) -> ModDesc {
    ModDesc {
        addr,
        name: name.to_string(),
        deps,
        friends: vec![],
        structs: vec![],
        functions: vec![],
    }
}

fn struct_tag(addr: u8, module: &str, name: &str) -> TypeTag {
    TypeTag::Struct(Box::new(StructTag {
        address: vec![addr],
        module: module.as_bytes().to_vec(),
        name: name.as_bytes().to_vec(),
        type_params: vec![],
    }))
}

#[test]
fn load_module_is_idempotent_and_skips_the_store() {
    let a = mk_id(1, "A");
    let store = TestStore::new(vec![(mk_id(1, "A"), vec![10])]);
    let oracle = TestOracle {
        modules: vec![(10, plain_module(1, "A", vec![]))],
        scripts: vec![],
        deserialized: Cell::new(0),
    };
    let mut loader = Loader::new(NativeFunctions::new());
    let idx1 = loader.load_module(&a, &store, &oracle).unwrap();
    let fetches_after_first = store.fetches.get();
    let idx2 = loader.load_module(&a, &store, &oracle).unwrap();
    assert_eq!(idx1, idx2);
    assert_eq!(store.fetches.get(), fetches_after_first);
    assert_eq!(loader.module_cache.modules.binaries.len(), 1);
}

#[test]
fn dependency_chain_loads_transitively() {
    let store = TestStore::new(vec![
        (mk_id(1, "A"), vec![10]),
        (mk_id(1, "B"), vec![11]),
        (mk_id(1, "C"), vec![12]),
    ]);
    let oracle = TestOracle {
        modules: vec![
            (10, plain_module(1, "A", vec![(1, "B".to_string())])),
            (11, plain_module(1, "B", vec![(1, "C".to_string())])),
            (12, plain_module(1, "C", vec![])),
        ],
        scripts: vec![],
        deserialized: Cell::new(0),
    };
    let mut loader = Loader::new(NativeFunctions::new());
    loader.load_module(&mk_id(1, "A"), &store, &oracle).unwrap();
    assert!(loader.module_cache.has_module(&mk_id(1, "C")));
    assert!(loader.module_cache.has_module(&mk_id(1, "B")));
    assert_eq!(loader.module_cache.modules.binaries.len(), 3);
}

#[test]
fn cyclic_dependencies_are_rejected_and_nothing_is_cached() {
    let store = TestStore::new(vec![(mk_id(1, "A"), vec![10]), (mk_id(1, "B"), vec![11])]);
    let oracle = TestOracle {
        modules: vec![
            (10, plain_module(1, "A", vec![(1, "B".to_string())])),
            (11, plain_module(1, "B", vec![(1, "A".to_string())])),
        ],
        scripts: vec![],
        deserialized: Cell::new(0),
    };
    let mut loader = Loader::new(NativeFunctions::new());
    let err = loader.load_module(&mk_id(1, "A"), &store, &oracle).unwrap_err();
    assert_eq!(err.status, StatusCode::CyclicModuleDependency);
    assert!(!loader.module_cache.has_module(&mk_id(1, "A")));
    assert!(!loader.module_cache.has_module(&mk_id(1, "B")));
    assert_eq!(loader.module_cache.structs.len(), 0);
    assert_eq!(loader.module_cache.functions.len(), 0);
}

#[test]
fn missing_module_surfaces_as_missing_dependency() {
    let store = TestStore::new(vec![]);
    let oracle = TestOracle { modules: vec![], scripts: vec![], deserialized: Cell::new(0) };
    let mut loader = Loader::new(NativeFunctions::new());
    let err = loader.load_module(&mk_id(9, "Nope"), &store, &oracle).unwrap_err();
    assert_eq!(err.status, StatusCode::MissingDependency);
}

#[test]
fn undecodable_store_bytes_are_an_invariant_violation() {
    // Bytes already accepted into the store must decode: a failure there is
    // upgraded, not reported as a plain deserialization error.
    let store = TestStore::new(vec![(mk_id(1, "A"), vec![99])]);
    let oracle = TestOracle { modules: vec![], scripts: vec![], deserialized: Cell::new(0) };
    let mut loader = Loader::new(NativeFunctions::new());
    let err = loader.load_module(&mk_id(1, "A"), &store, &oracle).unwrap_err();
    assert_eq!(err.status, StatusCode::UnexpectedDeserializationError);
}

#[test]
fn self_referencing_struct_fields_resolve_to_the_published_record() {
    let desc = ModDesc {
        addr: 1,
        name: "A".to_string(),
        deps: vec![],
        friends: vec![],
        structs: vec![
            ("S".to_string(), abilities(true, true, true, false), vec![]),
            (
                "T".to_string(),
                abilities(true, true, true, false),
                vec![SignatureToken::Struct(0)],
            ),
        ],
        functions: vec![],
    };
    let store = TestStore::new(vec![(mk_id(1, "A"), vec![10])]);
    let oracle =
        TestOracle { modules: vec![(10, desc)], scripts: vec![], deserialized: Cell::new(0) };
    let mut loader = Loader::new(NativeFunctions::new());
    loader.load_module(&mk_id(1, "A"), &store, &oracle).unwrap();
    assert_eq!(loader.module_cache.structs.len(), 2);
    assert_eq!(loader.module_cache.structs[0].name, b"S".to_vec());
    let t_fields = &loader.module_cache.structs[1].fields;
    assert_eq!(t_fields.len(), 1);
    match &t_fields[0] {
        Type::Struct(i) => assert_eq!(*i, 0),
        other => panic!("unexpected field type {:?}", other),
    }
}

#[test]
fn transactional_publish_rolls_back_on_failure() {
    // T's field names a struct handle of a module that is not cached, so
    // building the fields fails after the records were appended.
    let bad = ModDesc {
        addr: 1,
        name: "A".to_string(),
        deps: vec![(2, "Missing".to_string())],
        friends: vec![],
        structs: vec![("T".to_string(), abilities(true, true, true, false), vec![])],
        functions: vec![("f".to_string(), vec![])],
    };
    let mut code = build_module(&bad);
    // A struct handle naming the dependency module, used by T's field.
    code.struct_handles.push(StructHandle {
        module: 1,
        name: b"Elsewhere".to_vec(),
        abilities: abilities(true, true, true, false),
        type_parameters: vec![],
    });
    code.struct_defs[0].field_information =
        StructFieldInformation::Declared(vec![SignatureToken::Struct(1)]);
    assert!(code.check());

    let mut loader = Loader::new(NativeFunctions::new());
    // The dependency is cached first, but it does not declare "Elsewhere".
    let store = TestStore::new(vec![(mk_id(2, "Missing"), vec![11])]);
    let oracle = TestOracle {
        modules: vec![(11, plain_module(2, "Missing", vec![]))],
        scripts: vec![],
        deserialized: Cell::new(0),
    };
    loader.load_module(&mk_id(2, "Missing"), &store, &oracle).unwrap();
    let structs_before = loader.module_cache.structs.len();
    let functions_before = loader.module_cache.functions.len();
    let modules_before = loader.module_cache.modules.binaries.len();
    let err = loader
        .module_cache
        .insert(&NativeFunctions::new(), mk_id(1, "A"), code)
        .unwrap_err();
    assert_eq!(err.status, StatusCode::TypeResolutionFailure);
    assert_eq!(loader.module_cache.structs.len(), structs_before);
    assert_eq!(loader.module_cache.functions.len(), functions_before);
    assert_eq!(loader.module_cache.modules.binaries.len(), modules_before);
}

#[test]
fn ability_constraints_are_enforced_on_instantiation() {
    let desc = ModDesc {
        addr: 1,
        name: "A".to_string(),
        deps: vec![],
        friends: vec![],
        structs: vec![
            ("Foo".to_string(), abilities(true, true, true, false), vec![]),
            ("Bar".to_string(), abilities(false, true, false, false), vec![]),
        ],
        functions: vec![(
            "f".to_string(),
            vec![abilities(true, false, false, false)],
        )],
    };
    let store = TestStore::new(vec![(mk_id(1, "A"), vec![10])]);
    let oracle =
        TestOracle { modules: vec![(10, desc)], scripts: vec![], deserialized: Cell::new(0) };
    let mut loader = Loader::new(NativeFunctions::new());

    let ok = loader.load_function(
        &mk_id(1, "A"),
        &b"f".to_vec(),
        &vec![struct_tag(1, "A", "Foo")],
        &store,
        &oracle,
    );
    assert!(ok.is_ok());
    let (_, _, inst) = ok.unwrap();
    assert_eq!(inst.type_arguments.len(), 1);

    let err = loader
        .load_function(
            &mk_id(1, "A"),
            &b"f".to_vec(),
            &vec![struct_tag(1, "A", "Bar")],
            &store,
            &oracle,
        )
        .unwrap_err();
    assert_eq!(err.status, StatusCode::ConstraintNotSatisfied);

    let err = loader
        .load_function(&mk_id(1, "A"), &b"f".to_vec(), &vec![], &store, &oracle)
        .unwrap_err();
    assert_eq!(err.status, StatusCode::NumberOfTypeArgumentsMismatch);

    let err = loader
        .load_function(&mk_id(1, "A"), &b"missing".to_vec(), &vec![], &store, &oracle)
        .unwrap_err();
    assert_eq!(err.status, StatusCode::FunctionResolutionFailure);

    let err = loader
        .load_type(&struct_tag(1, "A", "Quux"), &store, &oracle)
        .unwrap_err();
    assert_eq!(err.status, StatusCode::TypeResolutionFailure);
}

#[test]
fn scripts_are_cached_by_the_hash_of_their_bytes() {
    let script = ScriptCode {
        version: 5,
        module_handles: vec![],
        struct_handles: vec![],
        function_handles: vec![],
        function_instantiations: vec![],
        signatures: vec![vec![]],
        constants: vec![],
        type_parameters: vec![],
        parameters: 0,
        code: CodeUnit { locals: 0, code: vec![] },
    };
    let store = TestStore::new(vec![]);
    let oracle = TestOracle {
        modules: vec![],
        scripts: vec![(7, clone_script(&script)), (8, clone_script(&script))],
        deserialized: Cell::new(0),
    };
    let mut loader = Loader::new(NativeFunctions::new());
    let (sidx1, inst1) = loader.load_script(&vec![7u8], &vec![], &store, &oracle).unwrap();
    assert_eq!(oracle.deserialized.get(), 1);
    // The script's identity is a real 32-byte digest of its bytes.
    assert_eq!(loader.scripts.script_at(sidx1).hash.len(), 32);
    assert_ne!(loader.scripts.script_at(sidx1).hash, vec![7u8]);
    assert_eq!(inst1.parameters.len(), 0);
    assert_eq!(inst1.return_.len(), 0);
    let (sidx2, _) = loader.load_script(&vec![7u8], &vec![], &store, &oracle).unwrap();
    assert_eq!(oracle.deserialized.get(), 1);
    assert_eq!(sidx1, sidx2);
    // Different bytes decode to the same script but cache separately.
    let (sidx3, _) = loader.load_script(&vec![8u8], &vec![], &store, &oracle).unwrap();
    assert_eq!(oracle.deserialized.get(), 2);
    assert!(sidx3 != sidx1);
}

#[test]
fn vector_instructions_get_their_element_type_pretranslated() {
    let script = ScriptCode {
        version: 5,
        module_handles: vec![],
        struct_handles: vec![],
        function_handles: vec![],
        function_instantiations: vec![],
        signatures: vec![vec![], vec![SignatureToken::U64]],
        constants: vec![],
        type_parameters: vec![],
        parameters: 0,
        code: CodeUnit { locals: 0, code: vec![Bytecode::VecPushBack(1)] },
    };
    let store = TestStore::new(vec![]);
    let oracle = TestOracle {
        modules: vec![],
        scripts: vec![(7, script)],
        deserialized: Cell::new(0),
    };
    let mut loader = Loader::new(NativeFunctions::new());
    let (sidx, _) = loader.load_script(&vec![7u8], &vec![], &store, &oracle).unwrap();
    let cached = loader.scripts.script_at(sidx);
    assert_eq!(cached.single_signature_token_map.len(), 2);
    assert!(cached.single_signature_token_map[0].is_none());
    match &cached.single_signature_token_map[1] {
        Some(Type::U64) => {}
        other => panic!("unexpected pre-translated type {:?}", other),
    }
}

#[test]
fn bundle_publication_defers_friends_of_later_members() {
    // M2 friends M1; both are in the bundle, M1 first.
    let m1 = plain_module(1, "M1", vec![]);
    let mut m2 = plain_module(1, "M2", vec![]);
    m2.friends = vec![(1, "M1".to_string())];
    let store = TestStore::new(vec![]);
    let oracle = TestOracle { modules: vec![], scripts: vec![], deserialized: Cell::new(0) };
    let mut loader = Loader::new(NativeFunctions::new());
    let modules = vec![build_module(&m1), build_module(&m2)];
    assert!(loader
        .verify_module_bundle_for_publication(&modules, &store, &oracle)
        .is_ok());
    // Publication-time verification does not install the modules.
    assert_eq!(loader.module_cache.modules.binaries.len(), 0);
}

#[test]
fn native_functions_must_resolve_in_the_registry() {
    let mut code = build_module(&plain_module(1, "A", vec![]));
    code.function_handles.push(FunctionHandle {
        module: 0,
        name: b"native_fn".to_vec(),
        parameters: 0,
        return_: 0,
        type_parameters: vec![],
    });
    code.function_defs.push(FunctionDef { function: 0, is_native: true, code: None });
    assert!(code.check());
    let loader = Loader::new(NativeFunctions::new());
    let err = loader.check_natives(&code).unwrap_err();
    assert_eq!(err.status, StatusCode::MissingDependency);

    let mut natives = NativeFunctions::new();
    natives.add(
        mk_id(1, "A"),
        b"native_fn".to_vec(),
        move_loader::oracle::NativeFunctionHandle { token: 42 },
    );
    let loader2 = Loader::new(natives);
    assert!(loader2.check_natives(&code).is_ok());
}

#[test]
fn indices_issued_earlier_survive_later_publications() {
    let a = ModDesc {
        addr: 1,
        name: "A".to_string(),
        deps: vec![],
        friends: vec![],
        structs: vec![("S".to_string(), abilities(true, true, true, false), vec![])],
        functions: vec![("f".to_string(), vec![])],
    };
    let b = ModDesc {
        addr: 1,
        name: "B".to_string(),
        deps: vec![],
        friends: vec![],
        structs: vec![("R".to_string(), abilities(true, true, true, false), vec![])],
        functions: vec![("g".to_string(), vec![])],
    };
    let store = TestStore::new(vec![(mk_id(1, "A"), vec![10]), (mk_id(1, "B"), vec![11])]);
    let oracle = TestOracle {
        modules: vec![(10, a), (11, b)],
        scripts: vec![],
        deserialized: Cell::new(0),
    };
    let mut loader = Loader::new(NativeFunctions::new());
    let a_idx = loader.load_module(&mk_id(1, "A"), &store, &oracle).unwrap();
    let s_name = loader.module_cache.structs[0].name.clone();
    let f_name = loader.module_cache.functions[0].name.clone();
    loader.load_module(&mk_id(1, "B"), &store, &oracle).unwrap();
    // Everything issued before the second publication is still there,
    // unchanged, at its old index.
    assert_eq!(loader.module_cache.structs[0].name, s_name);
    assert_eq!(loader.module_cache.functions[0].name, f_name);
    let a_idx_again = loader.load_module(&mk_id(1, "A"), &store, &oracle).unwrap();
    assert_eq!(a_idx, a_idx_again);
    assert_eq!(loader.module_cache.structs.len(), 2);
    assert_eq!(loader.module_cache.functions.len(), 2);
}

#[test]
fn native_struct_declarations_are_rejected() {
    let mut code = build_module(&plain_module(1, "A", vec![]));
    code.struct_handles.push(StructHandle {
        module: 0,
        name: b"N".to_vec(),
        abilities: abilities(false, false, false, false),
        type_parameters: vec![],
    });
    code.struct_defs.push(StructDef {
        struct_handle: 0,
        field_information: StructFieldInformation::Native,
    });
    assert!(code.check());
    let loader = Loader::new(NativeFunctions::new());
    let err = loader.check_natives(&code).unwrap_err();
    assert_eq!(err.status, StatusCode::MissingDependency);
}

#[test]
fn generic_struct_tags_load_as_instantiations() {
    let mut desc = plain_module(1, "A", vec![]);
    desc.structs = vec![(
        "Wrapper".to_string(),
        abilities(true, true, true, false),
        vec![],
    )];
    let store = TestStore::new(vec![(mk_id(1, "A"), vec![10])]);
    let oracle =
        TestOracle { modules: vec![(10, desc)], scripts: vec![], deserialized: Cell::new(0) };
    let mut loader = Loader::new(NativeFunctions::new());
    loader.load_module(&mk_id(1, "A"), &store, &oracle).unwrap();
    // Give the cached struct one unconstrained, non-phantom type parameter.
    loader.module_cache.structs[0].type_parameters = vec![StructTypeParameter {
        constraints: abilities(false, false, false, false),
        is_phantom: false,
    }];

    let tag = TypeTag::Struct(Box::new(StructTag {
        address: vec![1],
        module: b"A".to_vec(),
        name: b"Wrapper".to_vec(),
        type_params: vec![TypeTag::U64],
    }));
    match loader.load_type(&tag, &store, &oracle).unwrap() {
        Type::StructInstantiation(g, args) => {
            assert_eq!(g, 0);
            assert_eq!(args.len(), 1);
            assert!(matches!(args[0], Type::U64));
        }
        other => panic!("unexpected loaded type {:?}", other),
    }

    // The bare tag now has the wrong number of type arguments.
    let bare = struct_tag(1, "A", "Wrapper");
    let err = loader.load_type(&bare, &store, &oracle).unwrap_err();
    assert_eq!(err.status, StatusCode::NumberOfTypeArgumentsMismatch);
}

#[test]
fn resolvers_reach_the_owning_module_of_a_function() {
    let desc = ModDesc {
        addr: 1,
        name: "A".to_string(),
        deps: vec![],
        friends: vec![],
        structs: vec![],
        functions: vec![("f".to_string(), vec![])],
    };
    let store = TestStore::new(vec![(mk_id(1, "A"), vec![10])]);
    let oracle =
        TestOracle { modules: vec![(10, desc)], scripts: vec![], deserialized: Cell::new(0) };
    let mut loader = Loader::new(NativeFunctions::new());
    let (_, fidx, _) = loader
        .load_function(&mk_id(1, "A"), &b"f".to_vec(), &vec![], &store, &oracle)
        .unwrap();
    let f = loader.function_at(fidx);
    assert_eq!(f.name(), &b"f".to_vec());
    assert_eq!(f.arg_count(), 0);
    assert!(!f.is_native());
    let resolver = f.get_resolver(&loader).unwrap();
    let through_handle = resolver.function_from_handle(0);
    assert_eq!(through_handle.name, b"f".to_vec());
    assert_eq!(through_handle.pretty_string(), b"0x01::A::f".to_vec());
}
