use move_loader::abilities::AbilitySet;
use move_loader::cache::BinaryCache;
use move_loader::errors::{expect_no_verification_errors, StatusCode, VmError};
use move_loader::function::{Function, Scope};
use move_loader::ids::ModuleId;
use move_loader::loader::Loader;
use move_loader::module_cache::StructType;
use move_loader::oracle::NativeFunctions;
use move_loader::runtime_types::Type;

fn abilities(c: bool, d: bool, s: bool, k: bool) -> AbilitySet {
    AbilitySet { has_copy: c, has_drop: d, has_store: s, has_key: k }
}

fn mk_id(addr: u8, name: &str) -> ModuleId {
    ModuleId { address: vec![addr], name: name.as_bytes().to_vec() }
}

/// A loader whose struct table holds one struct with the given abilities and
/// field types, installed directly for unit testing the type machinery.
fn loader_with_struct(a: AbilitySet, fields: Vec<Type>) -> Loader {
    let mut loader = Loader::new(NativeFunctions::new());
    loader.module_cache.structs.push(StructType {
        fields,
        abilities: a,
        type_parameters: vec![],
        name: b"S".to_vec(),
        module: mk_id(1, "A"),
        struct_def: 0,
    });
    loader
}

#[test]
fn primitive_abilities() {
    let loader = Loader::new(NativeFunctions::new());
    assert_eq!(
        loader.abilities(&Type::U64).unwrap(),
        abilities(true, true, true, false)
    );
    assert_eq!(
        loader.abilities(&Type::Signer).unwrap(),
        abilities(false, true, false, false)
    );
    assert_eq!(
        loader.abilities(&Type::Reference(Box::new(Type::U8))).unwrap(),
        abilities(true, true, false, false)
    );
    // A vector of signers can neither be copied nor stored.
    assert_eq!(
        loader.abilities(&Type::Vector(Box::new(Type::Signer))).unwrap(),
        abilities(false, true, false, false)
    );
    // A type parameter must have been substituted away.
    assert_eq!(
        loader.abilities(&Type::TyParam(0)).unwrap_err(),
        StatusCode::Unreachable
    );
}

#[test]
fn struct_abilities_come_from_the_declaration() {
    let loader = loader_with_struct(abilities(true, false, false, true), vec![]);
    assert_eq!(
        loader.abilities(&Type::Struct(0)).unwrap(),
        abilities(true, false, false, true)
    );
}

#[test]
fn arity_mismatch_is_reported_exactly() {
    let loader = Loader::new(NativeFunctions::new());
    let constraints = vec![abilities(false, false, false, false)];
    let err = loader.verify_ty_args(&constraints, &vec![]).unwrap_err();
    assert_eq!(err, StatusCode::NumberOfTypeArgumentsMismatch);
    assert!(loader.verify_ty_args(&constraints, &vec![Type::U64]).is_ok());
    let strict = vec![abilities(false, false, false, true)];
    let err = loader.verify_ty_args(&strict, &vec![Type::U64]).unwrap_err();
    assert_eq!(err, StatusCode::ConstraintNotSatisfied);
}

#[test]
fn substitution_replaces_parameters_and_rejects_out_of_range() {
    let t = Type::Vector(Box::new(Type::TyParam(0)));
    let r = t.subst(&vec![Type::U8]).unwrap();
    match r {
        Type::Vector(inner) => match *inner {
            Type::U8 => {}
            other => panic!("unexpected substitution result {:?}", other),
        },
        other => panic!("unexpected substitution result {:?}", other),
    }
    assert!(t.subst(&vec![]).is_err());
}

#[test]
fn layouts_are_structural_and_bounded_in_depth() {
    let mut loader = loader_with_struct(
        abilities(true, true, true, false),
        vec![Type::U64, Type::Vector(Box::new(Type::Bool))],
    );
    let l1 = loader.type_to_type_layout(&Type::Struct(0)).unwrap();
    assert_eq!(
        format!("{:?}", l1),
        "Struct([U64, Vector(Bool)])"
    );
    // The second call is served from the memo table and agrees exactly.
    let l2 = loader.type_to_type_layout(&Type::Struct(0)).unwrap();
    assert_eq!(format!("{:?}", l1), format!("{:?}", l2));

    // Nesting below the bound is fine; past the bound it is an error.
    let mut shallow = Type::U8;
    for _ in 0..100 {
        shallow = Type::Vector(Box::new(shallow));
    }
    assert!(loader.type_to_type_layout(&shallow).is_ok());
    let mut deep = Type::U8;
    for _ in 0..200 {
        deep = Type::Vector(Box::new(deep));
    }
    let err = loader.type_to_type_layout(&deep).unwrap_err();
    assert_eq!(err.status, StatusCode::VmMaxValueDepthReached);

    // References and type parameters have no layout.
    let err = loader
        .type_to_type_layout(&Type::Reference(Box::new(Type::U8)))
        .unwrap_err();
    assert_eq!(err.status, StatusCode::UnknownInvariantViolation);
}

#[test]
fn tags_name_the_struct_through_its_module() {
    let mut loader = loader_with_struct(abilities(true, true, true, false), vec![]);
    match loader.type_to_type_tag(&Type::Struct(0)).unwrap() {
        move_loader::type_cache::TypeTag::Struct(st) => {
            assert_eq!(st.address, vec![1u8]);
            assert_eq!(st.module, b"A".to_vec());
            assert_eq!(st.name, b"S".to_vec());
            assert!(st.type_params.is_empty());
        }
        other => panic!("unexpected tag {:?}", other),
    }
    // The memoized tag agrees with a fresh one.
    let again = loader.type_to_type_tag(&Type::Struct(0)).unwrap();
    match again {
        move_loader::type_cache::TypeTag::Struct(st) => assert_eq!(st.name, b"S".to_vec()),
        other => panic!("unexpected tag {:?}", other),
    }
    // A dangling index, a reference and a type parameter have no tag.
    let err = loader.type_to_type_tag(&Type::Struct(7)).unwrap_err();
    assert_eq!(err.status, StatusCode::UnknownInvariantViolation);
    let err = loader.type_to_type_tag(&Type::TyParam(3)).unwrap_err();
    assert_eq!(err.status, StatusCode::UnknownInvariantViolation);
    let vec_tag = loader.type_to_type_tag(&Type::Vector(Box::new(Type::U128))).unwrap();
    assert_eq!(format!("{:?}", vec_tag), "Vector(U128)");
}

#[test]
fn binary_cache_finds_what_was_inserted() {
    let mut cache: BinaryCache<ModuleId, u64> = BinaryCache::new();
    assert!(cache.get(&mk_id(1, "A")).is_none());
    let idx = cache.insert(mk_id(1, "A"), 7);
    assert_eq!(idx, 0);
    let idx2 = cache.insert(mk_id(1, "B"), 8);
    assert_eq!(idx2, 1);
    assert_eq!(*cache.get(&mk_id(1, "A")).unwrap(), 7);
    assert_eq!(*cache.get(&mk_id(1, "B")).unwrap(), 8);
    assert!(cache.get(&mk_id(2, "A")).is_none());
    assert_eq!(*cache.value_at(0), 7);
    assert_eq!(cache.len(), 2);
}

#[test]
fn verification_failures_on_stored_bytes_become_invariant_violations() {
    let upgraded = expect_no_verification_errors(VmError::undefined(
        StatusCode::CyclicModuleDependency,
    ));
    assert_eq!(upgraded.status, StatusCode::UnexpectedVerifierError);
    let upgraded = expect_no_verification_errors(VmError::undefined(
        StatusCode::CodeDeserializationError,
    ));
    assert_eq!(upgraded.status, StatusCode::UnexpectedDeserializationError);
    let kept = expect_no_verification_errors(VmError::undefined(
        StatusCode::UnknownInvariantViolation,
    ));
    assert_eq!(kept.status, StatusCode::UnknownInvariantViolation);
}

#[test]
fn polymorphic_abilities_intersect_over_non_phantom_arguments() {
    let declared = abilities(true, true, true, false);
    let r = AbilitySet::polymorphic_abilities(
        declared,
        &vec![false, true],
        &vec![abilities(true, false, true, false), abilities(false, false, false, false)],
    )
    .unwrap();
    // The second argument is phantom: only the first constrains the result.
    assert_eq!(r, abilities(true, false, true, false));
    assert!(AbilitySet::polymorphic_abilities(declared, &vec![false], &vec![]).is_err());
}

#[test]
fn pretty_names_spell_the_owner() {
    let f = Function {
        file_format_version: 5,
        index: 0,
        scope: Scope::Module(mk_id(0xab, "Coin")),
        name: b"transfer".to_vec(),
        parameters: 0,
        return_: 0,
        arg_count: 0,
        local_count: 0,
        type_parameters: vec![],
        native: None,
    };
    assert_eq!(f.pretty_string(), b"0xab::Coin::transfer".to_vec());
    let g = Function {
        file_format_version: 5,
        index: 0,
        scope: Scope::Script(vec![0u8; 32]),
        name: b"main".to_vec(),
        parameters: 0,
        return_: 0,
        arg_count: 0,
        local_count: 0,
        type_parameters: vec![],
        native: None,
    };
    assert_eq!(g.pretty_string(), b"Script::main".to_vec());
}

#[test]
fn module_identities_compare_by_content() {
    let a = mk_id(1, "A");
    let b = a.duplicate();
    assert!(a.id_eq(&b));
    assert!(!a.id_eq(&mk_id(1, "B")));
    assert!(!a.id_eq(&mk_id(2, "A")));
}
