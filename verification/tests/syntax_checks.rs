use mantle_core::syntax_pass::{
    copy_ty, ty_to_string, AttrShape, DefItem, Deborrower, FieldAttrs, MacroCall,
    ParsedRpcCollector, RefChecker, RpcError, ServiceDefFinder, Span, SynArg, SynImplItem,
    SynImplItemKind, SynItem, SynItemKind, SynMethod, SynSegment, SynTy,
};

fn path(idents: &[&str]) -> SynTy {
    SynTy::Path(idents.iter().map(|i| SynSegment { ident: i.to_string(), args: vec![] }).collect())
}

fn generic(ident: &str, args: Vec<SynTy>) -> SynTy {
    SynTy::Path(vec![SynSegment { ident: ident.to_string(), args }])
}

fn rf(ty: SynTy) -> SynTy {
    SynTy::Ref { lifetime: None, mutable: false, ty: Box::new(ty) }
}

fn deborrowed(ty: &SynTy) -> String {
    let mut t = copy_ty(ty);
    Deborrower.visit_ty(&mut t);
    ty_to_string(&t)
}

fn has_ref(ty: &SynTy) -> bool {
    let mut c = RefChecker::new();
    c.visit_ty(ty);
    c.has_ref
}

#[test]
fn types_print_as_written() {
    let t = SynTy::Ref {
        lifetime: Some("'a".to_string()),
        mutable: true,
        ty: Box::new(SynTy::Slice(Box::new(path(&["u8"])))),
    };
    assert_eq!(ty_to_string(&t), "&'a mut [u8]");
    let t = generic("HashMap", vec![path(&["String"]), SynTy::Array(Box::new(path(&["u8"])), "32".to_string())]);
    assert_eq!(ty_to_string(&t), "HashMap<String, [u8; 32]>");
    assert_eq!(ty_to_string(&SynTy::Tuple(vec![path(&["u8"])])), "(u8,)");
    assert_eq!(ty_to_string(&SynTy::Tuple(vec![])), "()");
    assert_eq!(ty_to_string(&path(&["std", "string", "String"])), "std::string::String");
}

#[test]
fn references_are_found_anywhere() {
    assert!(has_ref(&rf(path(&["u32"]))));
    assert!(has_ref(&generic("Vec", vec![rf(path(&["str"]))])));
    assert!(has_ref(&SynTy::Tuple(vec![path(&["u8"]), rf(path(&["u8"]))])));
    assert!(!has_ref(&generic("Vec", vec![path(&["String"])])));
    assert!(!has_ref(&SynTy::Array(Box::new(path(&["u8"])), "4".to_string())));
}

#[test]
fn borrowed_types_get_owned_suggestions() {
    assert_eq!(deborrowed(&rf(path(&["str"]))), "String");
    assert_eq!(deborrowed(&rf(path(&["std", "str"]))), "String");
    assert_eq!(deborrowed(&rf(SynTy::Slice(Box::new(path(&["u8"]))))), "Vec<u8>");
    assert_eq!(deborrowed(&generic("Vec", vec![rf(path(&["str"]))])), "Vec<String>");
    assert_eq!(
        deborrowed(&SynTy::Tuple(vec![rf(path(&["str"])), rf(SynTy::Slice(Box::new(rf(path(&["str"])))))])),
        "(String, Vec<String>)"
    );
    assert_eq!(deborrowed(&rf(path(&["u32"]))), "&u32");
    assert_eq!(deborrowed(&rf(rf(path(&["str"])))), "&String");
}

fn sp(lo: u32, hi: u32) -> Span {
    Span { lo, hi }
}

fn arg(name_ok: bool, ty: SynTy, at: u32) -> SynArg {
    SynArg { pat_is_ident: name_ok, pat_span: sp(at, at + 1), ty, ty_span: sp(at + 2, at + 3), is_context_ref: false }
}

fn ctx_arg(at: u32) -> SynArg {
    SynArg {
        pat_is_ident: true,
        pat_span: sp(at, at + 1),
        ty: rf(path(&["Context"])),
        ty_span: sp(at + 2, at + 3),
        is_context_ref: true,
    }
}

fn self_arg(at: u32) -> SynArg {
    SynArg {
        pat_is_ident: true,
        pat_span: sp(at, at + 1),
        ty: rf(SynTy::ImplicitSelf),
        ty_span: sp(at, at + 1),
        is_context_ref: false,
    }
}

fn method(ident: &str, at: u32, inputs: Vec<SynArg>, ret: Option<SynTy>) -> SynImplItem {
    SynImplItem {
        ident: ident.to_string(),
        ident_span: sp(at + 8, at + 12),
        span: sp(at, at + 50),
        is_pub: true,
        generics_empty: true,
        generics_span: sp(at + 12, at + 12),
        kind: SynImplItemKind::Method(SynMethod {
            is_async: false,
            async_span: sp(at, at),
            is_unsafe: false,
            abi_is_rust: true,
            inputs,
            ret,
            output_span: sp(at + 40, at + 49),
        }),
    }
}

fn service_impl(items: Vec<SynImplItem>) -> SynItem {
    SynItem {
        ident: String::new(),
        span: sp(100, 900),
        kind: SynItemKind::Impl { is_trait_impl: false, self_ty: path(&["Ballot"]), items },
    }
}

#[test]
fn a_well_formed_service_yields_its_rpcs() {
    let mut c = ParsedRpcCollector::new("Ballot".to_string());
    c.visit_item(&SynItem {
        ident: "Ballot".to_string(),
        span: sp(10, 90),
        kind: SynItemKind::Struct { generics_empty: true, generics_span: sp(20, 20) },
    });
    assert_eq!(c.struct_span(), sp(10, 90));
    c.visit_item(&service_impl(vec![
        method("new", 100, vec![ctx_arg(110), arg(true, path(&["String"]), 120)], Some(path(&["Self"]))),
        method("vote", 200, vec![self_arg(210), ctx_arg(215), arg(true, path(&["u32"]), 220)], None),
    ]));
    let rpcs = match c.into_rpcs() {
        Ok(rpcs) => rpcs,
        Err(_) => panic!("the service is well formed"),
    };
    let names: Vec<&str> = rpcs.iter().map(|(n, _)| n.as_str()).collect();
    assert_eq!(names, vec!["new", "vote"]);
}

#[test]
fn a_borrowed_argument_is_refused_with_a_suggestion() {
    let mut c = ParsedRpcCollector::new("Ballot".to_string());
    c.visit_item(&service_impl(vec![method(
        "vote",
        200,
        vec![self_arg(210), ctx_arg(215), arg(false, rf(path(&["str"])), 220)],
        None,
    )]));
    let errs = match c.into_rpcs() {
        Err(errs) => errs,
        Ok(_) => panic!("the argument is borrowed"),
    };
    assert_eq!(errs.len(), 2);
    assert!(matches!(errs[0], RpcError::BadArgPat(s) if s == sp(220, 221)));
    match &errs[1] {
        RpcError::BadArgTy { span, suggestion } => {
            assert_eq!(*span, sp(222, 223));
            assert_eq!(suggestion, "String");
        }
        _ => panic!("the type error comes second"),
    }
    assert_eq!(errs[1].message(), "RPC argument must be an owned type. Maybe try `String`?");
}

#[test]
fn missing_self_context_and_bad_constructor() {
    let mut c = ParsedRpcCollector::new("Ballot".to_string());
    let mut no_ctx_ctor = method("new", 100, vec![arg(true, path(&["u8"]), 110)], Some(path(&["Ballot"])));
    if let SynImplItemKind::Method(m) = &mut no_ctx_ctor.kind {
        m.abi_is_rust = false;
    }
    c.visit_item(&service_impl(vec![no_ctx_ctor, method("peek", 300, vec![], None)]));
    let errs = match c.into_rpcs() {
        Err(errs) => errs,
        Ok(_) => panic!("nothing is well formed"),
    };
    let msgs: Vec<String> = errs.iter().map(|e| e.message()).collect();
    assert_eq!(
        msgs,
        vec![
            "RPC method cannot declare an ABI.".to_string(),
            "Service constructor must take `&Context` as its first argument.".to_string(),
            "Service constructor must return `Self` (aka `Ballot`)".to_string(),
            "RPC method must take `&self` or `&mut self` as its first argument.".to_string(),
            "RPC method must take `&Context` as its second argument.".to_string(),
        ]
    );
    assert_eq!(errs[0].span(), sp(104, 104));
}

#[test]
fn other_items_named_like_the_service_are_refused() {
    let mut c = ParsedRpcCollector::new("Ballot".to_string());
    c.visit_item(&SynItem { ident: "Ballot".to_string(), span: sp(5, 9), kind: SynItemKind::Other });
    c.visit_item(&SynItem { ident: "Other".to_string(), span: sp(5, 9), kind: SynItemKind::Other });
    c.visit_item(&SynItem {
        ident: "Ballot".to_string(),
        span: sp(10, 20),
        kind: SynItemKind::Struct { generics_empty: false, generics_span: sp(16, 19) },
    });
    let errs = match c.into_rpcs() {
        Err(errs) => errs,
        Ok(_) => panic!("errors were found"),
    };
    assert_eq!(errs.len(), 2);
    assert!(matches!(errs[0], RpcError::BadStruct(s) if s == sp(5, 9)));
    assert!(matches!(errs[1], RpcError::HasGenerics(s) if s == sp(16, 19)));
}

fn derive(names: &[&str]) -> AttrShape {
    AttrShape { derives: Some(names.iter().map(|n| Some(n.to_string())).collect()) }
}

fn field(name: &str, indexed: bool) -> FieldAttrs {
    FieldAttrs { ident: Some(name.to_string()), indexed }
}

#[test]
fn event_structs_note_their_indexed_fields() {
    let mut f = ServiceDefFinder::new();
    f.visit_item(&DefItem {
        ident: "Transfer".to_string(),
        attrs: vec![AttrShape { derives: None }, derive(&["Event"])],
        struct_fields: Some(vec![field("from", true), field("amount", false), field("to", true)]),
    });
    f.visit_item(&DefItem {
        ident: "Plain".to_string(),
        attrs: vec![derive(&["Clone", "Debug"])],
        struct_fields: Some(vec![field("x", true)]),
    });
    f.visit_item(&DefItem {
        ident: "E".to_string(),
        attrs: vec![derive(&["Serialize", "Deserialize", "Event"])],
        struct_fields: Some(vec![field("a", true), field("b", false)]),
    });
    f.visit_item(&DefItem { ident: "Kind".to_string(), attrs: vec![derive(&["Event"])], struct_fields: None });
    f.visit_mac(&MacroCall {
        path: vec!["mantle".to_string(), "service".to_string()],
        span: sp(1, 2),
        ident: "Ballot".to_string(),
    });
    f.visit_mac(&MacroCall { path: vec!["println".to_string()], span: sp(3, 4), ident: "x".to_string() });
    let (services, events) = f.get();
    assert_eq!(services.len(), 1);
    assert_eq!(services[0].name, "Ballot");
    assert_eq!(services[0].span, sp(1, 2));
    assert_eq!(
        events,
        vec![
            ("Transfer".to_string(), vec!["from".to_string(), "to".to_string()]),
            ("E".to_string(), vec!["a".to_string()]),
        ]
    );
}

#[test]
fn a_taken_suggestion_is_not_rewritten_again() {
    let types = vec![
        rf(path(&["str"])),
        rf(SynTy::Slice(Box::new(rf(path(&["str"]))))),
        generic("HashMap", vec![rf(path(&["str"])), rf(rf(path(&["u8"])))]),
        SynTy::Tuple(vec![rf(rf(path(&["str"]))), SynTy::Array(Box::new(rf(path(&["str"]))), "2".to_string())]),
    ];
    for ty in types {
        let mut once = copy_ty(&ty);
        Deborrower.visit_ty(&mut once);
        let mut twice = copy_ty(&once);
        Deborrower.visit_ty(&mut twice);
        assert_eq!(ty_to_string(&twice), ty_to_string(&once));
    }
}
