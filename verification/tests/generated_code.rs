use mantle_core::abi_gen::{
    call_gas, call_payload, client_plan, dispatch, dispatch_ctor, endpoint_plan, ClientMethod,
    ConstructorDispatch, Dispatch, DEFAULT_GAS,
};
use mantle_core::abi_items::{
    trait_item_problem, Arg, Attribute, Interface, MethodSig, ReturnType, SourceItem, TraitItem,
    TraitItemMethod, TraitItemProblem, Type,
};

fn ty(text: &str, abi_name: &str) -> Type {
    Type { text: text.to_string(), abi_name: abi_name.to_string() }
}

fn arg(pat: &str, text: &str, abi_name: &str) -> Arg {
    Arg { pat: pat.to_string(), ty: ty(text, abi_name) }
}

fn method(attrs: &[&str], ident: &str, inputs: Vec<Arg>, output: ReturnType) -> TraitItem {
    TraitItem::Method(TraitItemMethod {
        attrs: attrs.iter().map(|a| Attribute { path: vec![a.to_string()] }).collect(),
        sig: MethodSig { ident: ident.to_string(), receiver: "&mut self".to_string(), inputs, output },
        has_default: false,
        text: format!("fn {}(&mut self);", ident),
    })
}

fn contract(payable: bool) -> Interface {
    let attrs: &[&str] = if payable { &["payable"] } else { &[] };
    Interface::from_item(SourceItem::Trait {
        ident: "Contract".to_string(),
        items: vec![
            method(attrs, "constructor", vec![], ReturnType::Default),
            method(attrs, "baz", vec![arg("_p1", "u32", "uint32"), arg("_p2", "bool", "bool")], ReturnType::Default),
            method(attrs, "boo", vec![arg("_arg", "u32", "uint32")], ReturnType::Type(ty("u32", "uint32"))),
        ],
    })
}

// The payload of `baz(0x45, true)`.
const PAYLOAD_BAZ: &[u8] = &[
    0xcd, 0xcd, 0x77, 0xc0, 0x00, 0x00, 0x00, 0x00, 0x00, 0x00, 0x00, 0x00, 0x00, 0x00, 0x00, 0x00,
    0x00, 0x00, 0x00, 0x00, 0x00, 0x00, 0x00, 0x00, 0x00, 0x00, 0x00, 0x00, 0x00, 0x00, 0x00, 0x00,
    0x00, 0x00, 0x00, 0x45, 0x00, 0x00, 0x00, 0x00, 0x00, 0x00, 0x00, 0x00, 0x00, 0x00, 0x00, 0x00,
    0x00, 0x00, 0x00, 0x00, 0x00, 0x00, 0x00, 0x00, 0x00, 0x00, 0x00, 0x00, 0x00, 0x00, 0x00, 0x00,
    0x00, 0x00, 0x00, 0x01,
];

#[test]
fn dispatch_reads_the_selector_and_checks_value() {
    let non_payable = endpoint_plan(&contract(false));
    assert!(matches!(dispatch(&non_payable, &PAYLOAD_BAZ[..3], false), Dispatch::TooShort));
    assert!(matches!(dispatch(&non_payable, &[1, 2, 3, 4], false), Dispatch::UnknownMethod));
    assert!(matches!(dispatch(&non_payable, PAYLOAD_BAZ, false), Dispatch::Call(0)));
    assert!(matches!(dispatch(&non_payable, PAYLOAD_BAZ, true), Dispatch::RefusesValue(0)));
    assert!(matches!(dispatch(&non_payable, &[0x5d, 0xda, 0xb4, 0xd4], true), Dispatch::RefusesValue(1)));
    assert!(matches!(dispatch_ctor(&non_payable, true), ConstructorDispatch::RefusesValue));
    assert!(matches!(dispatch_ctor(&non_payable, false), ConstructorDispatch::Call));

    let payable = endpoint_plan(&contract(true));
    assert!(matches!(dispatch(&payable, PAYLOAD_BAZ, true), Dispatch::Call(0)));
    assert!(matches!(dispatch_ctor(&payable, true), ConstructorDispatch::Call));

    let bare = endpoint_plan(&Interface::from_item(SourceItem::Trait { ident: "E".to_string(), items: vec![] }));
    assert!(matches!(dispatch_ctor(&bare, true), ConstructorDispatch::Nothing));
}

#[test]
fn client_payloads_reach_their_arms() {
    let intf = contract(false);
    let endpoint = endpoint_plan(&intf);
    let client = client_plan(&intf);
    for (k, method) in client.methods.iter().enumerate() {
        if let ClientMethod::Call { selector_bytes, .. } = method {
            let payload = call_payload(*selector_bytes, &vec![0u8; 32]);
            assert_eq!(&payload[..4], &selector_bytes[..]);
            assert_eq!(payload.len(), 36);
            match dispatch(&endpoint, &payload, false) {
                Dispatch::Call(arm) => assert_eq!(arm, k),
                _ => panic!("the endpoint does not answer its client"),
            }
        }
    }
    assert_eq!(call_payload([0xcd, 0xcd, 0x77, 0xc0], &PAYLOAD_BAZ[4..].to_vec()), PAYLOAD_BAZ.to_vec());
}

#[test]
fn client_calls_offer_default_gas() {
    assert_eq!(DEFAULT_GAS, 200000);
    assert_eq!(call_gas(None), 200000);
    assert_eq!(call_gas(Some(7)), 7);
}

#[test]
fn refused_trait_items_are_named() {
    let both = method(&["constant", "payable"], "pay", vec![], ReturnType::Default);
    match trait_item_problem(&both) {
        Some(TraitItemProblem::ConstantAndPayable(name)) => assert_eq!(name, "pay"),
        _ => panic!("expected a problem"),
    }
    let ev = method(&["event"], "constructor", vec![], ReturnType::Default);
    assert!(matches!(trait_item_problem(&ev), Some(TraitItemProblem::EventConstructor)));
    let cc = method(&["constant"], "constructor", vec![], ReturnType::Default);
    assert!(matches!(trait_item_problem(&cc), Some(TraitItemProblem::ConstantConstructor)));
    let ok = method(&["payable"], "deposit", vec![], ReturnType::Default);
    assert!(trait_item_problem(&ok).is_none());
    assert!(trait_item_problem(&TraitItem::Other("type T;".to_string())).is_none());
}
