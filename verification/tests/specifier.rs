use norn_hir::specifier::{resolve_specifier, Resolved, SpecifierError};

fn file(importer: &str, specifier: &str) -> String {
    match resolve_specifier(importer, specifier) {
        Ok(Resolved::File(key)) => key,
        _ => panic!("{} does not name a file", specifier),
    }
}

#[test]
fn a_sibling_is_found_beside_the_importer() {
    assert_eq!(file("src/app/main.norn", "./fmt"), "src/app/fmt.norn");
    assert_eq!(file("main.norn", "./fmt"), "fmt.norn");
    assert_eq!(file("", "./fmt"), "fmt.norn");
}

#[test]
fn going_up_leaves_a_directory() {
    assert_eq!(file("src/app/main.norn", "../util/strings"), "src/util/strings.norn");
    assert_eq!(file("src/app/main.norn", "../../fmt"), "fmt.norn");
}

#[test]
fn going_up_stops_at_the_root() {
    assert_eq!(file("main.norn", "../../fmt"), "fmt.norn");
}

#[test]
fn folding_is_lexical() {
    assert_eq!(file("src/main.norn", "./a/../fmt"), file("src/main.norn", "./fmt"));
    assert_eq!(file("src/main.norn", "./a/./b"), "src/a/b.norn");
    assert_eq!(file("src/main.norn", "./a//b"), "src/a/b.norn");
}

#[test]
fn the_standard_library_is_verbatim() {
    match resolve_specifier("src/main.norn", "std/fmt") {
        Ok(Resolved::Std(key)) => assert_eq!(key, "std/fmt"),
        _ => panic!("a standard module was expected"),
    }
}

#[test]
fn a_file_under_std_is_still_a_file() {
    assert_eq!(file("main.norn", "./std/fs"), "std/fs.norn");
}

#[test]
fn a_bare_name_is_refused() {
    assert!(matches!(resolve_specifier("main.norn", "fmt"), Err(SpecifierError::Bare)));
    assert!(matches!(resolve_specifier("main.norn", ""), Err(SpecifierError::Bare)));
    assert!(matches!(resolve_specifier("main.norn", "/fmt"), Err(SpecifierError::Bare)));
}

#[test]
fn the_extension_is_implied() {
    assert!(matches!(
        resolve_specifier("main.norn", "./fmt.norn"),
        Err(SpecifierError::Extension)
    ));
    // The extension is the mistake, whatever else is written.
    assert!(matches!(
        resolve_specifier("main.norn", "std/fmt.norn"),
        Err(SpecifierError::Extension)
    ));
    assert!(matches!(
        resolve_specifier("main.norn", "fmt.norn"),
        Err(SpecifierError::Extension)
    ));
}
