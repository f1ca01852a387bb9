use mantle_core::contract_def::{split_contract_items, ContractDefError, ItemShape};
use mantle_core::idl::RpcType;
use mantle_core::import_gen::{is_build_type, type_text};

fn strings(v: &[&str]) -> Vec<String> {
    v.iter().map(|s| s.to_string()).collect()
}

fn st(ident: &str, derives: &[&str]) -> ItemShape {
    ItemShape::Struct { ident: ident.to_string(), derives: strings(derives) }
}

fn imp(self_ty: Option<&str>, methods: &[&str]) -> ItemShape {
    ItemShape::Impl { self_ty: self_ty.map(|s| s.to_string()), pub_methods: strings(methods) }
}

#[test]
fn the_contract_struct_and_its_impls_are_found() {
    let items = vec![
        st("Link", &["Clone"]),
        imp(Some("OLinks"), &["get_links", "add_link"]),
        st("OLinks", &["Serialize", "Contract"]),
        imp(Some("Link"), &["new"]),
        ItemShape::Other,
        imp(None, &["x"]),
        imp(Some("OLinks"), &[]),
    ];
    let split = split_contract_items(&items).unwrap();
    assert_eq!(split.contract, 2);
    assert_eq!(split.others, vec![0, 1, 3, 4, 5, 6]);
    assert_eq!(split.impls, vec![(1, strings(&["get_links", "add_link"])), (6, vec![])]);
}

#[test]
fn a_contract_definition_needs_exactly_one_contract() {
    assert_eq!(split_contract_items(&vec![st("A", &["Clone"])]).err(), Some(ContractDefError::NoContract));
    let two = vec![st("A", &["Contract"]), ItemShape::Other, st("B", &["Contract"])];
    assert_eq!(split_contract_items(&two).err(), Some(ContractDefError::SecondContract(2)));
}

#[test]
fn imported_types_have_their_rust_text() {
    let defined = |ns: Option<&str>, ty: &str| RpcType::Defined {
        namespace: ns.map(|s| s.to_string()),
        ty: ty.to_string(),
    };
    assert_eq!(type_text(&RpcType::Bytes), "Vec<u8>");
    assert_eq!(type_text(&RpcType::String), "&str");
    assert_eq!(type_text(&RpcType::Address), "mantle::Address");
    assert_eq!(type_text(&defined(Some("ns"), "T")), "ns::T");
    assert_eq!(type_text(&defined(None, "T")), "T");
    assert_eq!(type_text(&RpcType::Tuple(vec![RpcType::U8, RpcType::Bool])), "(u8, bool)");
    assert_eq!(type_text(&RpcType::Array(Box::new(RpcType::I64), 12)), "[i64; 12usize]");
    assert_eq!(
        type_text(&RpcType::MapOf(Box::new(RpcType::String), Box::new(RpcType::List(Box::new(RpcType::U32))))),
        "std::collections::HashMap<&str, Vec<u32>>"
    );
    assert_eq!(
        type_text(&RpcType::Optional(Box::new(RpcType::SetOf(Box::new(RpcType::F64))))),
        "Option<std::collections::HashSet<f64>>"
    );
    assert_eq!(
        type_text(&RpcType::Result(Box::new(RpcType::Tuple(vec![])), Box::new(defined(None, "Error")))),
        "Result<(), Error>"
    );
    assert!(is_build_type(&RpcType::Tuple(vec![RpcType::U8])));
    assert!(!is_build_type(&RpcType::Result(Box::new(RpcType::U8), Box::new(RpcType::H256))));
    assert!(!is_build_type(&RpcType::List(Box::new(RpcType::U256))));
    assert!(!is_build_type(&RpcType::Tuple(vec![RpcType::U8, RpcType::H256])));
}
