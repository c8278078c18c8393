use rust_embed::file::embedded_file_from_contents;
use rust_embed::folder::EmbeddedFolder;

/// The folder `examples/public/` with the prefix `prefix/`.
fn prefixed_folder() -> EmbeddedFolder {
    let mut folder = EmbeddedFolder::new(Some("prefix/".to_string()));
    let file = embedded_file_from_contents("index.html", b"<!DOCTYPE html>\n".to_vec(), None, true);
    folder.insert("index.html".to_string(), file);
    folder
}

#[test]
fn get_with_prefix() {
    assert!(prefixed_folder().get("prefix/index.html").is_some());
}

#[test]
fn get_without_prefix() {
    assert!(prefixed_folder().get("index.html").is_none());
}

#[test]
fn listed_names_carry_prefix() {
    assert_eq!(prefixed_folder().iter(), vec!["prefix/index.html".to_string()]);
}

#[test]
fn backslashes_after_prefix_are_separators() {
    let mut folder = EmbeddedFolder::new(Some("p\\".to_string()));
    let file = embedded_file_from_contents("a/b.txt", b"x".to_vec(), None, true);
    folder.insert("a/b.txt".to_string(), file);
    assert!(folder.get("p\\a\\b.txt").is_some());
    assert!(folder.get("p/a/b.txt").is_none());
}
