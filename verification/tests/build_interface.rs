use mantle_core::idl::{AdtShape, FieldShape, FnShape, IntTy, RpcType, SelfKind, SrcTy, UintTy};
use mantle_core::mantle_build::{convert_interface, convert_type_def, TypeDef};

fn ctx() -> SrcTy {
    SrcTy::Ref(Box::new(SrcTy::Named {
        crate_name: "mantle".to_string(),
        def_path: vec!["Context".to_string()],
        args: vec![],
    }))
}

fn rpc(name: &str, args: Vec<SrcTy>, output: Option<SrcTy>) -> FnShape {
    let mut inputs = vec![SrcTy::Other("&self".to_string()), ctx()];
    inputs.extend(args);
    FnShape { name: name.to_string(), self_kind: SelfKind::ImmRef, inputs, output }
}

fn transfer_event() -> AdtShape {
    AdtShape::Struct {
        name: "Transfer".to_string(),
        fields: vec![
            FieldShape { name: "from".to_string(), ty: SrcTy::Uint(UintTy::U64) },
            FieldShape { name: "to".to_string(), ty: SrcTy::Uint(UintTy::U64) },
            FieldShape { name: "amount".to_string(), ty: SrcTy::Uint(UintTy::U64) },
        ],
    }
}

#[test]
fn events_are_structs_with_indexed_fields() {
    match convert_type_def(&transfer_event(), true, "me") {
        Ok(TypeDef::Event { name, fields }) => {
            assert_eq!(name, "Transfer");
            assert!(fields.iter().all(|f| !f.indexed));
        }
        _ => panic!("an event struct is an event"),
    }
    match convert_type_def(&transfer_event(), false, "me") {
        Ok(TypeDef::Struct { .. }) => {}
        _ => panic!("a plain struct is a struct"),
    }
}

#[test]
fn build_interface_marks_indices_and_the_default_function() {
    let defs = vec![(transfer_event(), true)];
    let indices = vec![("Transfer".to_string(), vec!["from".to_string(), "to".to_string()])];
    let fns = vec![
        FnShape { name: "new".to_string(), self_kind: SelfKind::Other, inputs: vec![ctx()], output: None },
        rpc("default", vec![], None),
        rpc("balance", vec![SrcTy::Uint(UintTy::U64)], Some(SrcTy::Uint(UintTy::U64))),
    ];
    let intf = match convert_interface("Token", &vec![], &defs, &indices, &fns, "token", "0.3.0") {
        Ok(intf) => intf,
        Err(_) => panic!("the interface converts"),
    };
    assert!(intf.has_default_function);
    assert_eq!(intf.functions.len(), 1);
    assert_eq!(intf.functions[0].name, "balance");
    assert!(matches!(intf.functions[0].output, Some(RpcType::U64)));
    assert_eq!(intf.mantle_build_version, "0.3.0");
    match &intf.type_defs[0] {
        TypeDef::Event { fields, .. } => {
            let marks: Vec<bool> = fields.iter().map(|f| f.indexed).collect();
            assert_eq!(marks, vec![true, true, false]);
        }
        _ => panic!("the event stays an event"),
    }
}

#[test]
fn build_interface_reports_every_error() {
    let fns = vec![
        FnShape { name: "new".to_string(), self_kind: SelfKind::Other, inputs: vec![ctx(), SrcTy::Int(IntTy::I128)], output: None },
        rpc("f", vec![SrcTy::Uint(UintTy::Usize)], None),
    ];
    match convert_interface("Token", &vec![], &vec![], &vec![], &fns, "token", "0.3.0") {
        Err(errs) => assert_eq!(errs.len(), 2),
        Ok(_) => panic!("both errors are reported"),
    }
}
