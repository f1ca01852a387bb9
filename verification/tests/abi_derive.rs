use mantle_core::abi_args::{AbiError, Args, JsonError, NestedMeta};
use mantle_core::abi_items::{
    Arg, Attribute, Interface, Item, MethodSig, ReturnType, SourceItem, TraitItem,
    TraitItemMethod, Type,
};
use mantle_core::abi_json::{Abi, AbiEntry};

fn ty(text: &str, abi_name: &str) -> Type {
    Type { text: text.to_string(), abi_name: abi_name.to_string() }
}

fn arg(pat: &str, text: &str, abi_name: &str) -> Arg {
    Arg { pat: pat.to_string(), ty: ty(text, abi_name) }
}

fn method(attrs: &[&str], ident: &str, inputs: Vec<Arg>, output: ReturnType) -> TraitItem {
    TraitItem::Method(TraitItemMethod {
        attrs: attrs.iter().map(|a| Attribute { path: vec![a.to_string()] }).collect(),
        sig: MethodSig { ident: ident.to_string(), receiver: "&mut self".to_string(), inputs, output },
        has_default: false,
        text: format!("fn {}(&mut self);", ident),
    })
}

fn token_trait() -> SourceItem {
    SourceItem::Trait {
        ident: "Token".to_string(),
        items: vec![
            method(&[], "constructor", vec![arg("supply", "U256", "uint256")], ReturnType::Default),
            method(
                &[],
                "transfer",
                vec![arg("to", "Address", "address"), arg("value", "U256", "uint256")],
                ReturnType::Type(ty("bool", "bool")),
            ),
            method(
                &["constant"],
                "balanceOf",
                vec![arg("owner", "Address", "address")],
                ReturnType::Tuple(vec![ty("U256", "uint256"), ty("bool", "bool")]),
            ),
            method(
                &["event"],
                "Transfer",
                vec![
                    arg("indexed_from", "Address", "address"),
                    arg("value", "U256", "uint256"),
                    arg("indexed_to", "Address", "address"),
                ],
                ReturnType::Default,
            ),
            TraitItem::Other("type Foo;".to_string()),
        ],
    }
}

#[test]
fn interface_splits_off_the_constructor() {
    let intf = Interface::from_item(token_trait());
    assert_eq!(intf.name(), "Token");
    let ctor = intf.constructor().unwrap();
    assert_eq!(ctor.canonical, "constructor(uint256)");
    assert_eq!(intf.items().len(), 4);
    assert_eq!(intf.items()[0].name().unwrap(), "transfer");
    assert_eq!(intf.items()[2].name().unwrap(), "Transfer");
    assert!(intf.items()[3].name().is_none());
}

#[test]
fn function_selector_is_the_keccak_prefix() {
    let intf = Interface::from_item(token_trait());
    match &intf.items()[0] {
        Item::Signature(sig) => {
            assert_eq!(sig.canonical, "transfer(address,uint256)");
            assert_eq!(sig.hash, 0xa9059cbb);
            assert!(!sig.is_constant);
            assert!(!sig.is_payable);
            assert_eq!(sig.return_types.len(), 1);
        }
        _ => panic!("expected a function"),
    }
    match &intf.items()[1] {
        Item::Signature(sig) => {
            assert_eq!(sig.canonical, "balanceOf(address)");
            assert_eq!(sig.hash, 0x70a08231);
            assert!(sig.is_constant);
            assert_eq!(sig.return_types.len(), 2);
        }
        _ => panic!("expected a function"),
    }
}

#[test]
fn event_parameters_are_split_by_prefix() {
    let intf = Interface::from_item(token_trait());
    match &intf.items()[2] {
        Item::Event(ev) => {
            assert_eq!(ev.canonical, "Transfer(address,uint256,address)");
            let indexed: Vec<&str> = ev.indexed.iter().map(|a| a.pat.as_str()).collect();
            let data: Vec<&str> = ev.data.iter().map(|a| a.pat.as_str()).collect();
            assert_eq!(indexed, vec!["indexed_from", "indexed_to"]);
            assert_eq!(data, vec!["value"]);
        }
        _ => panic!("expected an event"),
    }
}

#[test]
fn method_with_default_body_is_left_alone() {
    let item = Item::from_trait_item(TraitItem::Method(TraitItemMethod {
        attrs: vec![Attribute { path: vec!["event".to_string()] }],
        sig: MethodSig {
            ident: "helper".to_string(),
            receiver: "&self".to_string(),
            inputs: vec![],
            output: ReturnType::Default,
        },
        has_default: true,
        text: "#[event] fn helper(&self) {}".to_string(),
    }));
    assert!(matches!(item, Item::Other(_)));
    assert!(item.name().is_none());
}

#[test]
fn json_abi_lists_functions_events_then_constructor() {
    let intf = Interface::from_item(token_trait());
    let abi = Abi::from(&intf);
    assert_eq!(abi.0.len(), 4);
    match &abi.0[0] {
        AbiEntry::Function(f) => {
            assert_eq!(f.name, "transfer");
            assert_eq!(f.arguments.len(), 2);
            assert_eq!(f.arguments[1].name, "value");
            assert_eq!(f.arguments[1].type_, "uint256");
            assert_eq!(f.outputs.len(), 1);
            assert_eq!(f.outputs[0].name, "returnValue0");
            assert!(!f.constant);
        }
        _ => panic!("expected a function entry"),
    }
    match &abi.0[1] {
        AbiEntry::Function(f) => {
            assert_eq!(f.outputs[1].name, "returnValue1");
            assert_eq!(f.outputs[1].type_, "bool");
            assert!(f.constant);
        }
        _ => panic!("expected a function entry"),
    }
    match &abi.0[2] {
        AbiEntry::Event(e) => {
            assert_eq!(e.name, "Transfer");
            let names: Vec<(&str, bool)> =
                e.inputs.iter().map(|i| (i.name.as_str(), i.indexed)).collect();
            assert_eq!(names, vec![("indexed_from", true), ("indexed_to", true), ("value", false)]);
        }
        _ => panic!("expected an event entry"),
    }
    match &abi.0[3] {
        AbiEntry::Constructor(c) => {
            assert_eq!(c.arguments.len(), 1);
            assert_eq!(c.arguments[0].name, "supply");
        }
        _ => panic!("expected the constructor entry"),
    }
}

#[test]
fn attribute_args_take_one_or_two_identifiers() {
    let args = Args::from_attribute_args(vec![NestedMeta::Word("Endpoint".to_string())]).unwrap();
    assert_eq!(args.endpoint_name(), "Endpoint");
    assert_eq!(args.client_name(), None);

    let args = Args::from_attribute_args(vec![
        NestedMeta::Word("Endpoint".to_string()),
        NestedMeta::Word("Client".to_string()),
    ])
    .unwrap();
    assert_eq!(args.client_name(), Some("Client"));
}

#[test]
fn attribute_args_errors() {
    let err = Args::from_attribute_args(vec![]).err().unwrap();
    assert_eq!(
        err.description(),
        "encountered an invalid number of arguments passed to eth_abi: expected 1 or 2"
    );
    let three = vec![
        NestedMeta::Word("A".to_string()),
        NestedMeta::Word("B".to_string()),
        NestedMeta::Word("C".to_string()),
    ];
    let err = Args::from_attribute_args(three).err().unwrap();
    assert_eq!(err.message(), "found 3 arguments passed to eth_abi but expected 1 or 2");
    let err = Args::from_attribute_args(vec![
        NestedMeta::Word("Endpoint".to_string()),
        NestedMeta::Other("a::b".to_string()),
    ])
    .err()
    .unwrap();
    assert_eq!(err.message(), "found non-identifier argument at index 1 passed to eth_abi");
    let err = Args::from_attribute_args(vec![NestedMeta::Other("\"str\"".to_string())])
        .err()
        .unwrap();
    assert_eq!(
        err.description(),
        "encountered malformatted argument passed to eth_abi: expected identifier (e.g. `Foo`))"
    );
    let e = AbiError::invalid_number_of_arguments(3);
    assert!(e.description().contains("invalid number"));
    let e = AbiError::malformatted_argument(1);
    assert!(e.description().contains("malformatted"));
}

#[test]
fn json_error_descriptions() {
    let io = std::io::Error::new(std::io::ErrorKind::Other, "disk");
    let e = JsonError::failed_to_create_dir(io);
    assert_eq!(e.description(), "failed to create directory for the JSON abi file");
    let io = std::io::Error::new(std::io::ErrorKind::Other, "disk");
    let e = AbiError::from(JsonError::failed_to_create_json_file(io));
    assert_eq!(e.description(), "failed to create JSON abi file");
}

#[test]
fn error_messages_name_the_count_or_index() {
    assert_eq!(
        AbiError::invalid_number_of_arguments(0).message(),
        "found 0 arguments passed to eth_abi but expected 1 or 2"
    );
    assert_eq!(
        AbiError::invalid_number_of_arguments(13).message(),
        "found 13 arguments passed to eth_abi but expected 1 or 2"
    );
    assert_eq!(
        AbiError::malformatted_argument(1).message(),
        "found non-identifier argument at index 1 passed to eth_abi"
    );
    let io = std::io::Error::new(std::io::ErrorKind::Other, "disk");
    let m = AbiError::from(JsonError::failed_to_create_json_file(io)).message();
    assert!(m.starts_with("failed to create JSON abi file: "));
    assert!(m.contains("disk"));
}
