use mantle_core::idl::{
    convert_float, convert_int, convert_type, convert_uint, is_std, AdtShape, FieldShape,
    FloatTy, FnShape, IntTy, RpcFunction, RpcInterface, RpcType, RpcTypeDef, SelfKind, SrcTy,
    StateConstructor, StateMutability, TypeRules, UintTy, UnsupportedTypeError,
};

fn strings(v: &[&str]) -> Vec<String> {
    v.iter().map(|s| s.to_string()).collect()
}

fn named(krate: &str, path: &[&str], args: Vec<SrcTy>) -> SrcTy {
    SrcTy::Named { crate_name: krate.to_string(), def_path: strings(path), args }
}

fn ctx() -> SrcTy {
    SrcTy::Ref(Box::new(named("oasis_std", &["Context"], vec![])))
}

fn oasis(ty: &SrcTy) -> Result<RpcType, UnsupportedTypeError> {
    convert_type(ty, "me", TypeRules::Oasis)
}

#[test]
fn integers_of_up_to_64_bits_convert() {
    assert!(matches!(convert_int(IntTy::I8), Ok(RpcType::I8)));
    assert!(matches!(convert_int(IntTy::I64), Ok(RpcType::I64)));
    assert!(matches!(convert_uint(UintTy::U16), Ok(RpcType::U16)));
    assert!(matches!(convert_float(FloatTy::F32), Ok(RpcType::F32)));
    match convert_int(IntTy::I128) {
        Err(UnsupportedTypeError::NotReprC(s)) => assert_eq!(s, "i128"),
        _ => panic!("i128 has no IDL counterpart"),
    }
    match convert_uint(UintTy::Usize) {
        Err(UnsupportedTypeError::NotReprC(s)) => assert_eq!(s, "usize"),
        _ => panic!("usize has no IDL counterpart"),
    }
}

#[test]
fn std_crates_of_the_idl() {
    assert!(is_std("std"));
    assert!(is_std("oasis_std"));
    assert!(!is_std("oasis"));
    assert!(!is_std("mantle"));
}

#[test]
fn structural_types_convert() {
    assert!(matches!(oasis(&SrcTy::Char), Ok(RpcType::I8)));
    assert!(matches!(oasis(&SrcTy::Ref(Box::new(SrcTy::Str))), Ok(RpcType::String)));
    match oasis(&SrcTy::Array(Box::new(SrcTy::Bool), Some(4))) {
        Ok(RpcType::Array(inner, 4)) => assert!(matches!(*inner, RpcType::Bool)),
        _ => panic!("an array of known length is an array"),
    }
    match oasis(&SrcTy::Array(Box::new(SrcTy::Bool), None)) {
        Ok(RpcType::List(inner)) => assert!(matches!(*inner, RpcType::Bool)),
        _ => panic!("an array of unknown length is a list"),
    }
    match oasis(&SrcTy::Tuple(vec![SrcTy::Uint(UintTy::U32), SrcTy::Str])) {
        Ok(RpcType::Tuple(ts)) => {
            assert_eq!(ts.len(), 2);
            assert!(matches!(ts[0], RpcType::U32));
        }
        _ => panic!("a tuple converts element by element"),
    }
    match oasis(&SrcTy::Tuple(vec![SrcTy::Bool, SrcTy::Int(IntTy::Isize), SrcTy::Other("fn()".to_string())])) {
        Err(UnsupportedTypeError::NotReprC(s)) => assert_eq!(s, "isize"),
        _ => panic!("the first element's error is the tuple's"),
    }
    match oasis(&SrcTy::Other("dyn Fn()".to_string())) {
        Err(UnsupportedTypeError::NotReprC(s)) => assert_eq!(s, "dyn Fn()"),
        _ => panic!("other types have no counterpart"),
    }
}

#[test]
fn named_types_convert_by_rule() {
    let bytes = named("alloc", &["vec", "Vec"], vec![SrcTy::Uint(UintTy::U8)]);
    assert!(matches!(oasis(&bytes), Ok(RpcType::Bytes)));
    match oasis(&named("alloc", &["vec", "Vec"], vec![SrcTy::Bool])) {
        Ok(RpcType::List(inner)) => assert!(matches!(*inner, RpcType::Bool)),
        _ => panic!("a vector converts to a list"),
    }
    let map = named("std", &["collections", "HashMap"], vec![SrcTy::Str, SrcTy::Uint(UintTy::U64)]);
    match oasis(&map) {
        Ok(RpcType::MapOf(k, v)) => {
            assert!(matches!(*k, RpcType::String));
            assert!(matches!(*v, RpcType::U64));
        }
        _ => panic!("a hash map converts to a map"),
    }
    match oasis(&named("std", &["sync", "Mutex"], vec![SrcTy::Bool])) {
        Err(UnsupportedTypeError::NotReprC(m)) => assert_eq!(m, "std::sync::Mutex"),
        _ => panic!("a mutex has no IDL counterpart"),
    }
    match oasis(&named("me", &["types", "Ballot"], vec![])) {
        Ok(RpcType::Defined { namespace, ty }) => {
            assert_eq!(namespace, None);
            assert_eq!(ty, "Ballot");
        }
        _ => panic!("a local type is a defined type"),
    }
    match oasis(&named("other", &["types", "Ballot"], vec![])) {
        Ok(RpcType::Defined { namespace, ty }) => {
            assert_eq!(namespace, Some("other".to_string()));
            assert_eq!(ty, "Ballot");
        }
        _ => panic!("a foreign type is a qualified defined type"),
    }
    let opt = named("core", &["option", "Option"], vec![SrcTy::Int(IntTy::I128)]);
    match oasis(&opt) {
        Err(UnsupportedTypeError::NotReprC(m)) => assert_eq!(m, "i128"),
        _ => panic!("the argument's error is passed on"),
    }
    assert!(matches!(oasis(&named("oasis_std", &["U256"], vec![])), Ok(RpcType::U256)));
    assert!(matches!(oasis(&named("oasis_types", &["H160"], vec![])), Ok(RpcType::Address)));
}

#[test]
fn the_build_knows_other_crates() {
    let addr = named("mantle_types", &["Address"], vec![]);
    assert!(matches!(convert_type(&addr, "me", TypeRules::Mantle), Ok(RpcType::Address)));
    let h = named("mantle_types", &["H256"], vec![]);
    assert!(matches!(convert_type(&h, "me", TypeRules::Mantle), Err(UnsupportedTypeError::NotReprC(_))));
    let o = named("oasis_std", &["U256"], vec![]);
    match convert_type(&o, "me", TypeRules::Mantle) {
        Ok(RpcType::Defined { namespace, ty }) => {
            assert_eq!(namespace, Some("oasis_std".to_string()));
            assert_eq!(ty, "U256");
        }
        _ => panic!("an unknown crate's type is a defined type"),
    }
}

#[test]
fn type_definitions() {
    let e = AdtShape::Enum { name: "Color".to_string(), variants: strings(&["Red", "Blue"]), payload_free: true };
    match RpcTypeDef::convert(&e, "me", TypeRules::Oasis) {
        Ok(RpcTypeDef::Enum { name, variants }) => {
            assert_eq!(name, "Color");
            assert_eq!(variants, strings(&["Red", "Blue"]));
        }
        _ => panic!("a plain enum converts"),
    }
    let e = AdtShape::Enum { name: "Shape".to_string(), variants: strings(&["Circle"]), payload_free: false };
    assert!(matches!(RpcTypeDef::convert(&e, "me", TypeRules::Oasis), Err(UnsupportedTypeError::ComplexEnum)));
    let s = AdtShape::Struct {
        name: "Point".to_string(),
        fields: vec![
            FieldShape { name: "x".to_string(), ty: SrcTy::Int(IntTy::I32) },
            FieldShape { name: "tag".to_string(), ty: SrcTy::Ref(Box::new(SrcTy::Str)) },
        ],
    };
    match RpcTypeDef::convert(&s, "me", TypeRules::Oasis) {
        Ok(RpcTypeDef::Struct { name, fields }) => {
            assert_eq!(name, "Point");
            assert_eq!(fields.len(), 2);
            assert_eq!(fields[1].name, "tag");
            assert!(matches!(fields[1].ty, RpcType::String));
        }
        _ => panic!("a struct converts field by field"),
    }
    let u = AdtShape::Union { name: "U".to_string() };
    match RpcTypeDef::convert(&u, "me", TypeRules::Oasis) {
        Err(UnsupportedTypeError::NotReprC(m)) => assert_eq!(m, "union"),
        _ => panic!("unions have no counterpart"),
    }
}

fn rpc(name: &str, self_kind: SelfKind, args: Vec<SrcTy>, output: Option<SrcTy>) -> FnShape {
    let mut inputs = vec![SrcTy::Ref(Box::new(SrcTy::Other("Self".to_string()))), ctx()];
    inputs.extend(args);
    FnShape { name: name.to_string(), self_kind, inputs, output }
}

#[test]
fn functions_and_constructors() {
    let f = rpc("vote", SelfKind::MutRef, vec![SrcTy::Uint(UintTy::U32)], Some(SrcTy::Tuple(vec![])));
    match RpcFunction::convert(&f, "me", TypeRules::Oasis) {
        Ok(g) => {
            assert_eq!(g.name, "vote");
            assert_eq!(g.mutability, StateMutability::Mutable);
            assert_eq!(g.inputs.len(), 1);
            assert!(g.output.is_none());
        }
        Err(_) => panic!("the function converts"),
    }
    let f = rpc("peek", SelfKind::ImmRef, vec![], Some(SrcTy::Bool));
    let g = RpcFunction::convert(&f, "me", TypeRules::Oasis).ok().unwrap();
    assert_eq!(g.mutability, StateMutability::Immutable);
    assert!(matches!(g.output, Some(RpcType::Bool)));

    let bad = rpc(
        "bad",
        SelfKind::ImmRef,
        vec![SrcTy::Int(IntTy::I128), SrcTy::Uint(UintTy::Usize)],
        Some(SrcTy::Other("impl Trait".to_string())),
    );
    match RpcFunction::convert(&bad, "me", TypeRules::Oasis) {
        Err(errs) => assert_eq!(errs.len(), 3),
        Ok(_) => panic!("every error is reported"),
    }

    let c = StateConstructor::convert(&vec![ctx(), SrcTy::Str, SrcTy::Bool], "me", TypeRules::Oasis)
        .ok()
        .unwrap();
    assert_eq!(c.inputs.len(), 2);
    assert!(StateConstructor::convert(&vec![], "me", TypeRules::Oasis).ok().unwrap().inputs.is_empty());
}

#[test]
fn interface_of_a_service() {
    let defs = vec![AdtShape::Enum { name: "Color".to_string(), variants: strings(&["Red"]), payload_free: true }];
    let fns = vec![
        FnShape { name: "new".to_string(), self_kind: SelfKind::Other, inputs: vec![ctx(), SrcTy::Str], output: None },
        rpc("vote", SelfKind::MutRef, vec![SrcTy::Uint(UintTy::U32)], None),
    ];
    let imports = vec![("other".to_string(), "0.1".to_string())];
    let intf = RpcInterface::convert("Ballot", &imports, &defs, &fns, "ballot", "0.2.0").ok().unwrap();
    assert_eq!(intf.service_name(), "Ballot");
    assert_eq!(intf.namespace, "ballot");
    assert_eq!(intf.imports[0].name, "other");
    assert_eq!(intf.type_defs.len(), 1);
    assert_eq!(intf.constructor.inputs.len(), 1);
    assert_eq!(intf.functions.len(), 1);
    assert_eq!(intf.idl_gen_version, "0.2.0");

    let bad_defs = vec![AdtShape::Union { name: "U".to_string() }];
    let bad_fns = vec![rpc("f", SelfKind::ImmRef, vec![SrcTy::Int(IntTy::I128)], None)];
    match RpcInterface::convert("Ballot", &imports, &bad_defs, &bad_fns, "ballot", "0.2.0") {
        Err(errs) => {
            assert_eq!(errs.len(), 2);
            assert!(matches!(&errs[0], UnsupportedTypeError::NotReprC(m) if m == "union"));
            assert!(matches!(&errs[1], UnsupportedTypeError::NotReprC(m) if m == "i128"));
        }
        Ok(_) => panic!("the errors of definitions come first"),
    }
}

#[test]
fn unsupported_type_messages() {
    assert_eq!(
        UnsupportedTypeError::NotReprC("i128".to_string()).message(),
        "`i128` cannot be converted to an RPC type"
    );
    assert_eq!(
        UnsupportedTypeError::ComplexEnum.message(),
        "Tagged unions cannot (yet) be converted to an RPC type"
    );
    assert_eq!(
        UnsupportedTypeError::Unimplemented("u128".to_string()).message(),
        "Unimplemented RPC type: `u128`"
    );
}
