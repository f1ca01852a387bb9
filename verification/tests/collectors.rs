use mantle_core::collectors::{
    AnalyzedRpcCollector, EventCollector, HirExpr, HirImplItem, HirItem, RpcCollector, SyntaxPass,
};
use mantle_core::idl::{FnShape, SelfKind};
use mantle_core::syntax_pass::{AttrShape, DefItem};

fn derive(names: &[&str]) -> AttrShape {
    AttrShape { derives: Some(names.iter().map(|n| Some(n.to_string())).collect()) }
}

fn shape(name: &str) -> FnShape {
    FnShape { name: name.to_string(), self_kind: SelfKind::ImmRef, inputs: vec![], output: None }
}

fn method(parent: u64, name: &str, is_pub: bool) -> HirImplItem {
    HirImplItem { parent, ident: name.to_string(), is_pub, method: Some(shape(name)), body: parent * 100 }
}

#[test]
fn the_service_is_the_item_deriving_service() {
    let mut p = SyntaxPass::new();
    assert_eq!(p.service_name(), None);
    p.visit_item(&DefItem { ident: "Helper".to_string(), attrs: vec![derive(&["Clone"])], struct_fields: None });
    assert_eq!(p.service_name(), None);
    p.visit_item(&DefItem {
        ident: "Ballot".to_string(),
        attrs: vec![AttrShape { derives: None }, derive(&["Debug", "Service"])],
        struct_fields: None,
    });
    assert_eq!(p.service_name(), Some("Ballot".to_string()));
}

#[test]
fn public_methods_of_the_service_impl_are_rpcs() {
    let mut c = RpcCollector::new("Ballot".to_string());
    c.visit_item(&HirItem { id: 1, inherent_impl_of: Some("Ballot".to_string()) });
    c.visit_item(&HirItem { id: 2, inherent_impl_of: Some("Other".to_string()) });
    c.visit_item(&HirItem { id: 3, inherent_impl_of: None });
    c.visit_impl_item(method(1, "vote", true));
    c.visit_impl_item(method(1, "helper", false));
    c.visit_impl_item(method(2, "elsewhere", true));
    c.visit_impl_item(HirImplItem { parent: 1, ident: "CONST".to_string(), is_pub: true, method: None, body: 0 });
    c.visit_impl_item(method(1, "winner", true));
    let names: Vec<&str> = c.rpcs().iter().map(|(n, _)| n.as_str()).collect();
    assert_eq!(names, vec!["vote", "winner"]);

    let mut a = AnalyzedRpcCollector::new("Ballot".to_string());
    a.visit_item(&HirItem { id: 7, inherent_impl_of: Some("Ballot".to_string()) });
    a.visit_impl_item(method(7, "vote", true));
    assert_eq!(a.rpcs().len(), 1);
    assert_eq!(a.rpcs()[0].2, 700);
}

#[test]
fn emitted_events_are_collected_once() {
    let emit = |adt: u64, inner: Vec<HirExpr>| HirExpr::MethodCall {
        method: "emit".to_string(),
        args: {
            let mut a = vec![HirExpr::Other(vec![])];
            a.extend(inner);
            a
        },
        first_arg_adt: Some(adt),
    };
    let body = HirExpr::Other(vec![
        emit(5, vec![]),
        HirExpr::Call {
            callee: "mantle::Event::emit".to_string(),
            args: vec![HirExpr::Other(vec![])],
            first_arg_adt: Some(9),
        },
        HirExpr::MethodCall { method: "push".to_string(), args: vec![emit(5, vec![emit(6, vec![])])], first_arg_adt: Some(1) },
        HirExpr::Call { callee: "helper".to_string(), args: vec![HirExpr::Other(vec![])], first_arg_adt: Some(2) },
    ]);
    let mut c = EventCollector::new();
    c.visit_expr(&body);
    let mut ids = c.adt_defs();
    ids.sort();
    assert_eq!(ids, vec![5, 6, 9]);
}
