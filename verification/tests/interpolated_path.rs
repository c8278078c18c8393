use rust_embed::file::embedded_file_from_contents;
use rust_embed::file::EmbeddedFile;
use rust_embed::folder::{EmbeddedFolder, RustEmbed};

/// The folder `$CARGO_MANIFEST_DIR/examples/public/`.
fn public_folder() -> EmbeddedFolder {
    let mut folder = EmbeddedFolder::new(None);
    for (path, data) in [
        ("index.html", b"<!DOCTYPE html>\n<html></html>\n".to_vec()),
        ("images/llama.png", vec![0x89, b'P', b'N', b'G']),
    ] {
        let file = embedded_file_from_contents(path, data, None, true);
        folder.insert(path.to_string(), file);
    }
    folder
}

#[test]
fn interpolated_path_get_works() {
    let asset = public_folder();
    assert!(asset.get("index.html").is_some(), "index.html should exist");
    assert!(asset.get("gg.html").is_none(), "gg.html should not exist");
    assert!(asset.get("images/llama.png").is_some(), "llama.png should exist");
}

/// A type whose embedded folder is `$CARGO_MANIFEST_DIR/examples/public/`.
struct Asset;

impl RustEmbed for Asset {
    fn get(file_path: &str) -> Option<EmbeddedFile> {
        public_folder().get(file_path)
    }
}

#[test]
fn interpolated_path_trait_works_generic() {
    trait_works_generic_helper::<Asset>();
}

fn trait_works_generic_helper<E: RustEmbed>() {
    assert!(E::get("gg.html").is_none(), "gg.html should not exist");
}
