use mantle_core::defined_types::{AdtNode, DefinedTypeCollector, HirTy};

fn node(is_std: bool, is_local: bool, field_adts: &[u64]) -> AdtNode {
    AdtNode { is_std, is_local, field_adts: field_adts.to_vec() }
}

fn named(adt: u64, inner: Vec<HirTy>) -> HirTy {
    HirTy { adt: Some(adt), inner }
}

fn sorted(mut v: Vec<u64>) -> Vec<u64> {
    v.sort();
    v
}

// 0: a local `Tree { children: Vec<Tree>, label: Label }`
// 1: `Vec`, from the standard library
// 2: a local `Label { text: String, owner: Account }`
// 3: `String`, from the standard library
// 4: `Account`, from another crate, with a field of type `Secret`
// 5: `Secret`, from another crate
// 6: a local `Unused`
fn table() -> Vec<AdtNode> {
    vec![
        node(false, true, &[1, 0, 2]),
        node(true, false, &[]),
        node(false, true, &[3, 4]),
        node(true, false, &[]),
        node(false, false, &[5]),
        node(false, false, &[]),
        node(false, true, &[]),
    ]
}

#[test]
fn a_recursive_type_is_collected_with_its_fields_once() {
    let mut c = DefinedTypeCollector::new(table());
    c.visit_ty(&named(0, vec![]));
    let got = c.adt_defs();
    assert_eq!(got.len(), 3);
    assert_eq!(sorted(got), vec![0, 2, 4]);
}

#[test]
fn standard_library_types_are_left_out_but_their_arguments_are_visited() {
    let mut c = DefinedTypeCollector::new(table());
    // `Vec<Label>`: the written path names `Vec`, its argument names `Label`.
    c.visit_ty(&named(1, vec![named(2, vec![])]));
    assert_eq!(sorted(c.adt_defs()), vec![2, 4]);
}

#[test]
fn fields_of_foreign_types_are_not_followed() {
    let mut c = DefinedTypeCollector::new(table());
    c.visit_ty(&named(4, vec![]));
    assert_eq!(c.adt_defs(), vec![4]);
}

#[test]
fn types_naming_no_definition_collect_nothing() {
    let mut c = DefinedTypeCollector::new(table());
    c.visit_ty(&HirTy { adt: None, inner: vec![HirTy { adt: None, inner: vec![] }] });
    c.visit_ty(&named(99, vec![]));
    assert_eq!(c.adt_defs(), Vec::<u64>::new());
}

#[test]
fn visiting_again_or_in_another_order_collects_the_same() {
    let mut a = DefinedTypeCollector::new(table());
    a.visit_ty(&named(6, vec![]));
    a.visit_ty(&named(2, vec![]));
    a.visit_ty(&named(2, vec![]));
    let mut b = DefinedTypeCollector::new(table());
    b.visit_ty(&named(2, vec![]));
    b.visit_ty(&named(6, vec![]));
    assert_eq!(sorted(a.adt_defs()), vec![2, 4, 6]);
    assert_eq!(sorted(b.adt_defs()), vec![2, 4, 6]);
}
