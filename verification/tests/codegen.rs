use rust_embed::codegen::{asset_identifier, decimal_string, generate_source, match_arm_text, static_item_text, AssetFile};

#[test]
fn decimal_text() {
    assert_eq!(decimal_string(0), "0");
    assert_eq!(decimal_string(7), "7");
    assert_eq!(decimal_string(10), "10");
    assert_eq!(decimal_string(1234567890), "1234567890");
    assert_eq!(decimal_string(u64::MAX), u64::MAX.to_string());
}

#[test]
fn identifier_replaces_dots_slashes_dashes() {
    assert_eq!(asset_identifier("examples/public/index.html"), "examples_public_index_html");
    assert_eq!(asset_identifier("./a-b.c"), "__a_b_c");
}

#[test]
fn match_arm_for_path() {
    assert_eq!(match_arm_text("public/index.html"), "    \"public/index.html\" => Result::Ok(&public_index_html),\n");
}

#[test]
fn static_item_for_file() {
    let file = AssetFile { path: "a.txt".to_string(), data: vec![1, 22, 255] };
    assert_eq!(static_item_text(&file), "pub static a_txt: [u8; 3] = [1, 22, 255];\n");
    let empty = AssetFile { path: "e".to_string(), data: vec![] };
    assert_eq!(static_item_text(&empty), "pub static e: [u8; 0] = [];\n");
}

#[test]
fn byte_list_matches_debug_format() {
    let data: Vec<u8> = (0..=255).collect();
    let file = AssetFile { path: "x".to_string(), data: data.clone() };
    let expected = format!("pub static x: [u8; 256] = {:?};\n", data);
    assert_eq!(static_item_text(&file), expected);
}

#[test]
fn whole_source() {
    let files = vec![
        AssetFile { path: "public/a.txt".to_string(), data: vec![104, 105] },
        AssetFile { path: "public/b-c.js".to_string(), data: vec![] },
    ];
    let expected = [
        "#![allow(dead_code)]\n",
        "#![allow(non_upper_case_globals)]\n",
        "pub static public_a_txt: [u8; 2] = [104, 105];\n",
        "pub static public_b_c_js: [u8; 0] = [];\n",
        "\npub fn get(name: &str) -> Result<&[u8], &str> {\n",
        "  match name {\n",
        "    \"public/a.txt\" => Result::Ok(&public_a_txt),\n",
        "    \"public/b-c.js\" => Result::Ok(&public_b_c_js),\n",
        "    _=> Result::Err(\"File Not Found\")\n",
        "  }\n}\n",
    ]
    .concat();
    assert_eq!(generate_source(&files), expected);
}

#[test]
fn source_for_no_files() {
    let expected = "#![allow(dead_code)]\n#![allow(non_upper_case_globals)]\n\npub fn get(name: &str) -> Result<&[u8], &str> {\n  match name {\n    _=> Result::Err(\"File Not Found\")\n  }\n}\n";
    assert_eq!(generate_source(&vec![]), expected);
}
