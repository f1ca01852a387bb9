use mantle_core::abi_gen::{client_plan, endpoint_plan, event_log, ClientMethod};
use mantle_core::abi_items::{
    Arg, Attribute, Interface, Item, MethodSig, ReturnType, SourceItem, TraitItem,
    TraitItemMethod, Type,
};

fn ty(text: &str, abi_name: &str) -> Type {
    Type { text: text.to_string(), abi_name: abi_name.to_string() }
}

fn arg(pat: &str, text: &str, abi_name: &str) -> Arg {
    Arg { pat: pat.to_string(), ty: ty(text, abi_name) }
}

fn method(attrs: &[&str], ident: &str, inputs: Vec<Arg>, output: ReturnType) -> TraitItem {
    TraitItem::Method(TraitItemMethod {
        attrs: attrs.iter().map(|a| Attribute { path: vec![a.to_string()] }).collect(),
        sig: MethodSig { ident: ident.to_string(), receiver: "&mut self".to_string(), inputs, output },
        has_default: false,
        text: format!("fn {}(&mut self);", ident),
    })
}

fn token() -> Interface {
    Interface::from_item(SourceItem::Trait {
        ident: "Token".to_string(),
        items: vec![
            method(&[], "constructor", vec![arg("supply", "U256", "uint256")], ReturnType::Default),
            method(
                &[],
                "transfer",
                vec![arg("to", "Address", "address"), arg("value", "U256", "uint256")],
                ReturnType::Type(ty("bool", "bool")),
            ),
            method(
                &["constant"],
                "balanceOf",
                vec![arg("owner", "Address", "address")],
                ReturnType::Tuple(vec![ty("U256", "uint256"), ty("bool", "bool")]),
            ),
            method(
                &["event"],
                "Transfer",
                vec![
                    arg("indexed_from", "Address", "address"),
                    arg("indexed_to", "Address", "address"),
                    arg("value", "U256", "uint256"),
                ],
                ReturnType::Default,
            ),
            method(&["payable"], "deposit", vec![], ReturnType::Default),
            TraitItem::Other("type Foo;".to_string()),
        ],
    })
}

#[test]
fn endpoint_dispatches_each_function_by_selector() {
    let plan = endpoint_plan(&token());
    let ctor = plan.constructor.expect("the trait has a constructor");
    assert_eq!(ctor.arg_types, vec!["U256".to_string()]);
    assert!(ctor.refuses_value);
    assert_eq!(plan.arms.len(), 3);

    assert_eq!(plan.arms[0].selector, 0xa9059cbb);
    assert_eq!(plan.arms[0].method, "transfer");
    assert_eq!(plan.arms[0].arg_types, vec!["Address".to_string(), "U256".to_string()]);
    assert!(plan.arms[0].refuses_value);
    assert_eq!(plan.arms[0].return_count, 1);

    assert_eq!(plan.arms[1].selector, 0x70a08231);
    assert_eq!(plan.arms[1].method, "balanceOf");
    assert_eq!(plan.arms[1].return_count, 2);

    // `deposit()`
    assert_eq!(plan.arms[2].selector, 0xd0e30db0);
    assert!(!plan.arms[2].refuses_value);
    assert_eq!(plan.arms[2].return_count, 0);
}

#[test]
fn client_calls_start_with_the_selector_bytes() {
    let plan = client_plan(&token());
    let (ctor_name, ctor_sig) = plan.constructor.expect("the trait has a constructor");
    assert_eq!(ctor_name, "constructor");
    assert_eq!(ctor_sig.inputs.len(), 1);
    assert_eq!(plan.methods.len(), 4);
    match &plan.methods[0] {
        ClientMethod::Call { name, selector_bytes, arg_pats, decodes_reply, .. } => {
            assert_eq!(name, "transfer");
            assert_eq!(*selector_bytes, [0xa9, 0x05, 0x9c, 0xbb]);
            assert_eq!(arg_pats, &vec!["to".to_string(), "value".to_string()]);
            assert!(*decodes_reply);
        }
        ClientMethod::Event { .. } => panic!("expected a call"),
    }
    match &plan.methods[2] {
        ClientMethod::Event { name, .. } => assert_eq!(name, "Transfer"),
        ClientMethod::Call { .. } => panic!("expected an event"),
    }
    match &plan.methods[3] {
        ClientMethod::Call { name, selector_bytes, decodes_reply, .. } => {
            assert_eq!(name, "deposit");
            assert_eq!(*selector_bytes, [0xd0, 0xe3, 0x0d, 0xb0]);
            assert!(!*decodes_reply);
        }
        ClientMethod::Event { .. } => panic!("expected a call"),
    }
}

#[test]
fn each_endpoint_arm_is_reached_by_a_client_call() {
    let intf = token();
    let endpoint = endpoint_plan(&intf);
    let client = client_plan(&intf);
    for arm in &endpoint.arms {
        let found = client.methods.iter().any(|m| match m {
            ClientMethod::Call { name, selector_bytes, .. } => {
                *name == arm.method && u32::from_be_bytes(*selector_bytes) == arm.selector
            }
            ClientMethod::Event { .. } => false,
        });
        assert!(found, "no client call for {}", arm.method);
    }
}

#[test]
fn an_event_logs_its_hash_then_its_indexed_arguments() {
    let intf = token();
    let event = match &intf.items()[2] {
        Item::Event(event) => event,
        _ => panic!("expected an event"),
    };
    assert_eq!(event.canonical, "Transfer(address,address,uint256)");
    let log = event_log(event);
    assert_eq!(
        log.topic,
        [
            0xdd, 0xf2, 0x52, 0xad, 0x1b, 0xe2, 0xc8, 0x9b, 0x69, 0xc2, 0xb0, 0x68, 0xfc, 0x37, 0x8d,
            0xaa, 0x95, 0x2b, 0xa7, 0xf1, 0x63, 0xc4, 0xa1, 0x16, 0x28, 0xf5, 0x5a, 0x4d, 0xf5, 0x23,
            0xb3, 0xef,
        ]
    );
    assert_eq!(log.indexed_pats, vec!["indexed_from".to_string(), "indexed_to".to_string()]);
    assert_eq!(log.data_pats, vec!["value".to_string()]);
}

#[test]
fn an_interface_without_functions_has_an_empty_dispatch() {
    let intf = Interface::from_item(SourceItem::Trait { ident: "Empty".to_string(), items: vec![] });
    let endpoint = endpoint_plan(&intf);
    assert!(endpoint.constructor.is_none());
    assert!(endpoint.arms.is_empty());
    let client = client_plan(&intf);
    assert!(client.constructor.is_none());
    assert!(client.methods.is_empty());
}

fn payable_contract(payable: bool) -> Interface {
    let attrs: &[&str] = if payable { &["payable"] } else { &[] };
    Interface::from_item(SourceItem::Trait {
        ident: "Contract".to_string(),
        items: vec![
            method(attrs, "constructor", vec![], ReturnType::Default),
            method(
                attrs,
                "baz",
                vec![arg("_p1", "u32", "uint32"), arg("_p2", "bool", "bool")],
                ReturnType::Default,
            ),
            method(attrs, "boo", vec![arg("_arg", "u32", "uint32")], ReturnType::Type(ty("u32", "uint32"))),
        ],
    })
}

#[test]
fn payable_methods_accept_value_and_others_refuse_it() {
    for payable in [false, true] {
        let plan = endpoint_plan(&payable_contract(payable));
        assert_eq!(plan.constructor.unwrap().refuses_value, !payable);
        assert_eq!(plan.arms.len(), 2);
        // The payloads a client sends start with these selectors.
        assert_eq!(plan.arms[0].selector, 0xcdcd77c0);
        assert_eq!(plan.arms[0].return_count, 0);
        assert_eq!(plan.arms[1].selector, 0x5ddab4d4);
        assert_eq!(plan.arms[1].return_count, 1);
        assert!(plan.arms.iter().all(|arm| arm.refuses_value == !payable));
    }
}
