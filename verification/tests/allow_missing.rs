use rust_embed::attributes::{embed_attributes, AttributeArg};
use rust_embed::file::FileEntry;
use rust_embed::folder::{select_entries, EmbeddedFolder};

/// The folder configured by `#[folder = "examples/missing/"]` and
/// `#[allow_missing = true]`: the folder does not exist, so walking it finds
/// no file, and the configuration accepts that.
fn missing_folder() -> EmbeddedFolder {
    let args = vec![
        AttributeArg { ident: Some("folder".to_string()), str_value: Some("examples/missing/".to_string()), bool_value: None },
        AttributeArg { ident: Some("allow_missing".to_string()), str_value: None, bool_value: Some(true) },
    ];
    let config = embed_attributes(true, &args, true).unwrap();
    assert!(config.allow_missing);
    let walked: Vec<FileEntry> = Vec::new();
    let includes: Vec<&str> = config.includes.iter().map(|s| s.as_str()).collect();
    let excludes: Vec<&str> = config.excludes.iter().map(|s| s.as_str()).collect();
    let selected = select_entries(walked, '/', &includes, &excludes).unwrap();
    let mut folder = EmbeddedFolder::new(config.prefix);
    for entry in selected {
        let file = rust_embed::file::embedded_file_from_contents(&entry.rel_path, Vec::new(), None, true);
        folder.insert(entry.rel_path, file);
    }
    folder
}

#[test]
fn missing_is_empty() {
    let asset = missing_folder();
    assert_eq!(asset.iter().len(), 0);
}
