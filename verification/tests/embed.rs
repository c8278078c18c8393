use std::io::Read;
use rust_embed::file::{embedded_file_from_contents, FileTime};
use rust_embed::file::EmbeddedFile;
use rust_embed::folder::{EmbeddedFolder, RustEmbed};

/// Bytes that do not compress, standing for the contents of a JPEG image.
fn noise(len: usize, seed: u32) -> Vec<u8> {
    let mut state = seed;
    let mut out = Vec::with_capacity(len);
    for _ in 0..len {
        state = state.wrapping_mul(1_103_515_245).wrapping_add(12_345);
        out.push((state >> 16) as u8);
    }
    out
}

const INDEX_HTML: &str = "<!DOCTYPE html>\n<html>\n  <head>\n    <title>Rust Embed</title>\n  </head>\n  <body>\n    <h1>Hello from Rust Embed</h1>\n    <p>index page, index page, index page, index page</p>\n  </body>\n</html>\n";

/// The folder `examples/public/`, embedded with the given prefix.
fn public_folder(prefix: Option<&str>) -> EmbeddedFolder {
    let mut folder = EmbeddedFolder::new(prefix.map(|p| p.to_string()));
    let files: Vec<(&str, Vec<u8>)> = vec![
        ("index.html", INDEX_HTML.as_bytes().to_vec()),
        ("main.js", b"console.log('Hello from main.js');\n".to_vec()),
        ("images/llama.png", noise(2048, 7)),
        ("images/flower.jpg", noise(4096, 11)),
    ];
    for (path, data) in files {
        let modified = Some(FileTime { before_epoch: false, secs: 1_600_000_000 });
        let file = embedded_file_from_contents(path, data, modified, true);
        folder.insert(path.to_string(), file);
    }
    folder
}

#[test]
fn lib_get_works() {
    let asset = public_folder(None);
    assert!(asset.get("index.html").is_some(), "index.html should exist");
    assert!(asset.get("gg.html").is_none(), "gg.html should not exist");
    assert!(asset.get("images/llama.png").is_some(), "llama.png should exist");
}

#[test]
fn get_windows_style() {
    let asset = public_folder(None);
    assert!(
        asset.get("images\\llama.png").is_some(),
        "llama.png should be accessible via \"images\\lama.png\""
    );
}

#[test]
fn file_contents_work() {
    let asset = public_folder(None);
    let index = asset.get("index.html").unwrap();
    let index_data = std::str::from_utf8(&index.data).unwrap();
    assert!(index_data.starts_with("<!DOCTYPE html>"));
}

#[test]
fn gzipped_data_omitted_for_already_compressed_files() {
    let asset = public_folder(None);
    let image = asset.get("images/flower.jpg").unwrap();
    assert!(image.data_gzip.is_none());
}

#[test]
fn gzipped_data_kept_for_compressible_files() {
    let asset = public_folder(None);
    let index = asset.get("index.html").unwrap();
    let compressed = index.data_gzip.expect("html compresses");
    assert!(compressed.len() < index.data.len());
    let mut decoder = flate2::read::GzDecoder::new(compressed.as_slice());
    let mut text = String::new();
    decoder.read_to_string(&mut text).unwrap();
    assert_eq!(text, INDEX_HTML);
}

#[test]
fn iter_lists_files_in_insertion_order() {
    let asset = public_folder(None);
    assert_eq!(
        asset.iter(),
        vec!["index.html", "main.js", "images/llama.png", "images/flower.jpg"]
    );
}

#[test]
fn every_listed_name_is_found() {
    for prefix in [None, Some("prefix/")] {
        let asset = public_folder(prefix);
        for name in asset.iter() {
            assert!(asset.get(&name).is_some(), "{} should exist", name);
        }
    }
}

#[test]
fn insert_replaces_file_under_same_path() {
    let mut asset = public_folder(None);
    let file = embedded_file_from_contents("index.html", b"new".to_vec(), None, true);
    asset.insert("index.html".to_string(), file);
    assert_eq!(asset.iter().len(), 4);
    let index = asset.get("index.html").unwrap();
    assert_eq!(index.data, b"new".to_vec());
    assert_eq!(index.metadata.last_modified(), None);
    assert_eq!(asset.get("main.js").unwrap().data, b"console.log('Hello from main.js');\n".to_vec());
}

#[test]
fn gzipped_file_contents_work() {
    let asset = public_folder(None);
    let index = asset.get("index.html").unwrap();
    let index_data_compressed = index.data_gzip.unwrap();

    let mut gz = flate2::read::GzDecoder::new(index_data_compressed.as_slice());
    let mut index_data = String::new();

    gz.read_to_string(&mut index_data).unwrap();
    assert!(index_data.starts_with("<!DOCTYPE html>"));
}

/// A type whose embedded folder is `examples/public/`.
struct Asset;

impl RustEmbed for Asset {
    fn get(file_path: &str) -> Option<EmbeddedFile> {
        public_folder(None).get(file_path)
    }
}

#[test]
fn lib_trait_works_generic() {
    trait_works_generic_helper::<Asset>();
}

fn trait_works_generic_helper<E: RustEmbed>() {
    assert!(E::get("gg.html").is_none(), "gg.html should not exist");
}
