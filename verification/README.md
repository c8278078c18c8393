# rust_embed

A verified library for embedding a folder of static assets into a Rust
program, written in Verus.

- `src/patterns.rs`: the include and exclude glob patterns that select the
  files of the folder (exclusion wins over inclusion), and `PathFilter`, a
  set of patterns that all parse.
- `src/file.rs`: an embedded file and its metadata (base64 SHA-256 hash,
  `ETag`, RFC 2822 modification date, MIME type, gzip data kept where it is
  smaller), computed from the contents and the modification time.
- `src/folder.rs`: a folder of embedded files with an optional prefix: the
  names it lists and the lookup of a requested path (prefix stripped,
  backslashes read as separators), the selection of walked files, and the
  check that a file read on request stays inside the folder.
- `src/attributes.rs`: the `folder`, `prefix`, `include` and `exclude`
  attributes, and `allow_missing`, that configure a folder.
- `src/codegen.rs`: the Rust source that the command-line generator writes
  for a folder.
- `src/text.rs`: small string tools.

`app/` holds the command-line generator, the file-system walk and reads, and
the token generation of the derive, none of which the verifier sees.
