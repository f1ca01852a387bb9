use mantle_core::import_gen;

#[test]
fn sanitize_ident() {
    assert_eq!(&import_gen::sanitize_ident("../../../../bin/bash"), "binbash");
    assert_eq!(&import_gen::sanitize_ident("snake_case"), "snake_case");
    assert_eq!(&import_gen::sanitize_ident("kebab-case"), "kebab-case");
    assert_eq!(&import_gen::sanitize_ident(""), "");
    assert_eq!(&import_gen::sanitize_ident(r#"!@#$%^&*()+=[]|\{}"'.,/<>?""#), "");
    assert_eq!(&import_gen::sanitize_ident("˙´¬¬ø ∑ø®¬∂"), "");
    assert_eq!(&import_gen::sanitize_ident(" \n\t\r"), "");
}

#[test]
fn sanitize_ident_twice_changes_nothing() {
    for s in ["a/b-c_d", "Mixed Case 42!", "--__--", "ünïcödé_name"].iter() {
        let once = import_gen::sanitize_ident(s);
        assert_eq!(import_gen::sanitize_ident(&once), once);
        assert!(once.chars().all(|c| c.is_ascii_alphanumeric() || c == '_' || c == '-'));
    }
    assert_eq!(import_gen::sanitize_ident("Mixed Case 42!"), "MixedCase42");
}
