use mantle_core::mantle_build::{collect_import_rustc_args, get_arg, is_std, path_ends_with};

fn strings(v: &[&str]) -> Vec<String> {
    v.iter().map(|s| s.to_string()).collect()
}

#[test]
fn get_arg_takes_the_value_after_the_first_flag() {
    let args = strings(&["rustc", "--crate-name", "ballot", "--crate-name", "other", "--out-dir"]);
    assert_eq!(get_arg("--crate-name", &args).map(|s| s.as_str()), Some("ballot"));
    assert_eq!(get_arg("--out-dir", &args), None);
    assert_eq!(get_arg("--edition", &args), None);
}

#[test]
fn import_args_drop_codegen_name_and_sources() {
    let args = strings(&[
        "/usr/bin/rustc",
        "--edition",
        "2018",
        "-C",
        "opt-level=3",
        "--crate-name",
        "ballot",
        "--crate-type",
        "bin",
        "src/main.rs",
        "-L",
        "deps",
    ]);
    assert_eq!(
        collect_import_rustc_args(&args),
        strings(&["--edition", "2018", "--crate-type", "rlib", "-L", "deps"])
    );
    assert_eq!(collect_import_rustc_args(&[]), Vec::<String>::new());
}

#[test]
fn std_crates_of_the_build() {
    assert!(is_std("std"));
    assert!(is_std("core"));
    assert!(is_std("alloc"));
    assert!(is_std("mantle_std"));
    assert!(!is_std("serde"));
    assert!(!is_std("oasis_std"));
}

#[test]
fn path_suffixes() {
    let path = strings(&["crate", "mantle", "service"]);
    assert!(path_ends_with(&path, &["mantle", "service"]));
    assert!(path_ends_with(&path, &["service"]));
    assert!(!path_ends_with(&path, &["mantle"]));
    assert!(!path_ends_with(&strings(&["service"]), &["mantle", "service"]));
}
